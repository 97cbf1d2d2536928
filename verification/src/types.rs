//! The shared vocabulary of curricula: node and edge kinds, summaries and outlines.
use vstd::prelude::*;

use crate::text::str_eq;

verus! {

/// How one curriculum node leads to another.
#[derive(Debug, Clone, Copy, PartialEq, Eq, Structural)]
pub enum EdgeType {
    Next,
    Deeper,
    Sibling,
}

/// Whether a node is a chapter or a page inside one.
#[derive(Debug, Clone, Copy, PartialEq, Eq, Structural)]
pub enum NodeType {
    Chapter,
    Page,
}

/// Whether a node's content is ready.
#[derive(Debug, Clone, Copy, PartialEq, Eq, Structural)]
pub enum NodeStatus {
    Ready,
    Generating,
    Error,
}

/// How a learner asks to grow a curriculum from a node.
#[derive(Debug, Clone, Copy, PartialEq, Eq, Structural)]
pub enum ExpandAction {
    Deeper,
    Siblings,
    Next,
}

/// The name a stored kind of edge has.
pub open spec fn edge_type_name(t: EdgeType) -> Seq<char> {
    match t {
        EdgeType::Next => "next"@,
        EdgeType::Deeper => "deeper"@,
        EdgeType::Sibling => "sibling"@,
    }
}

/// The name a stored kind of node has.
pub open spec fn node_type_name(t: NodeType) -> Seq<char> {
    match t {
        NodeType::Chapter => "chapter"@,
        NodeType::Page => "page"@,
    }
}

/// The name a stored node status has.
pub open spec fn node_status_name(s: NodeStatus) -> Seq<char> {
    match s {
        NodeStatus::Ready => "ready"@,
        NodeStatus::Generating => "generating"@,
        NodeStatus::Error => "error"@,
    }
}

impl EdgeType {
    /// The stored name of the kind.
    pub fn as_db(&self) -> (r: &'static str)
        ensures
            r@ == edge_type_name(*self),
    {
        match self {
            EdgeType::Next => "next",
            EdgeType::Deeper => "deeper",
            EdgeType::Sibling => "sibling",
        }
    }

    /// The kind a stored name denotes.
    pub fn from_db(s: &str) -> (r: Option<EdgeType>)
        ensures
            r matches Some(t) ==> edge_type_name(t) == s@,
            r is None ==> forall|t: EdgeType| edge_type_name(t) != s@,
    {
        if str_eq(s, "next") {
            Some(EdgeType::Next)
        } else if str_eq(s, "deeper") {
            Some(EdgeType::Deeper)
        } else if str_eq(s, "sibling") {
            Some(EdgeType::Sibling)
        } else {
            None
        }
    }
}

impl NodeType {
    /// The stored name of the kind.
    pub fn as_db(&self) -> (r: &'static str)
        ensures
            r@ == node_type_name(*self),
    {
        match self {
            NodeType::Chapter => "chapter",
            NodeType::Page => "page",
        }
    }

    /// The kind a stored name denotes.
    pub fn from_db(s: &str) -> (r: Option<NodeType>)
        ensures
            r matches Some(t) ==> node_type_name(t) == s@,
            r is None ==> forall|t: NodeType| node_type_name(t) != s@,
    {
        if str_eq(s, "chapter") {
            Some(NodeType::Chapter)
        } else if str_eq(s, "page") {
            Some(NodeType::Page)
        } else {
            None
        }
    }
}

impl NodeStatus {
    /// The stored name of the status.
    pub fn as_db(&self) -> (r: &'static str)
        ensures
            r@ == node_status_name(*self),
    {
        match self {
            NodeStatus::Ready => "ready",
            NodeStatus::Generating => "generating",
            NodeStatus::Error => "error",
        }
    }

    /// The status a stored name denotes.
    pub fn from_db(s: &str) -> (r: Option<NodeStatus>)
        ensures
            r matches Some(t) ==> node_status_name(t) == s@,
            r is None ==> forall|t: NodeStatus| node_status_name(t) != s@,
    {
        if str_eq(s, "ready") {
            Some(NodeStatus::Ready)
        } else if str_eq(s, "generating") {
            Some(NodeStatus::Generating)
        } else if str_eq(s, "error") {
            Some(NodeStatus::Error)
        } else {
            None
        }
    }
}

/// A curriculum as listed; `created_at` is in microseconds since the Unix epoch.
#[derive(Debug, Clone)]
pub struct CurriculumSummary {
    pub id: u128,
    pub title: String,
    pub topic: String,
    pub created_at: i64,
}

/// A node as listed among others.
#[derive(Debug, Clone)]
pub struct NodeSummary {
    pub id: u128,
    pub title: String,
    pub summary: String,
    pub node_type: NodeType,
    pub status: NodeStatus,
    pub depth: i32,
    pub position: i32,
}

/// A node with its content, children, outgoing edges and videos.
#[derive(Debug, Clone)]
pub struct NodeDetail {
    pub id: u128,
    pub curriculum_id: u128,
    pub title: String,
    pub summary: String,
    pub content: String,
    pub node_type: NodeType,
    pub status: NodeStatus,
    pub depth: i32,
    pub position: i32,
    pub parent_node_id: Option<u128>,
    pub children: Vec<NodeSummary>,
    pub edges: NodeEdges,
    pub videos: Vec<VideoSummary>,
}

/// The nodes a node leads to, by kind of edge.
#[derive(Debug, Clone)]
pub struct NodeEdges {
    pub next: Vec<NodeSummary>,
    pub deeper: Vec<NodeSummary>,
    pub siblings: Vec<NodeSummary>,
}

impl NodeEdges {
    /// No edges of any kind.
    pub fn new() -> (r: NodeEdges)
        ensures
            r.next@.len() == 0,
            r.deeper@.len() == 0,
            r.siblings@.len() == 0,
    {
        NodeEdges { next: Vec::new(), deeper: Vec::new(), siblings: Vec::new() }
    }

    /// Files `target` under the list of its edge's kind, after the ones already there.
    pub fn add(&mut self, edge_type: EdgeType, target: NodeSummary)
        ensures
            final(self).next@ == (if edge_type == EdgeType::Next {
                old(self).next@.push(target)
            } else {
                old(self).next@
            }),
            final(self).deeper@ == (if edge_type == EdgeType::Deeper {
                old(self).deeper@.push(target)
            } else {
                old(self).deeper@
            }),
            final(self).siblings@ == (if edge_type == EdgeType::Sibling {
                old(self).siblings@.push(target)
            } else {
                old(self).siblings@
            }),
    {
        match edge_type {
            EdgeType::Next => self.next.push(target),
            EdgeType::Deeper => self.deeper.push(target),
            EdgeType::Sibling => self.siblings.push(target),
        }
    }
}

/// A video attached to a node. `relevance_score_bits` holds the IEEE-754 bits of the
/// relevance score, which the library carries without reading.
#[derive(Debug, Clone)]
pub struct VideoSummary {
    pub id: u128,
    pub youtube_id: String,
    pub title: String,
    pub channel_name: String,
    pub thumbnail_url: String,
    pub duration_secs: i32,
    pub rank: i32,
    pub relevance_score_bits: u32,
    pub ai_rationale: String,
}

/// The outline of a curriculum as the model writes it.
#[derive(Debug, Clone)]
pub struct CurriculumOutline {
    pub title: String,
    pub description: String,
    pub chapters: Vec<ChapterOutline>,
}

/// One chapter of an outline.
#[derive(Debug, Clone)]
pub struct ChapterOutline {
    pub title: String,
    pub summary: String,
    pub content: String,
}

} // verus!
