//! Stored rows of curricula, their nodes, edges and videos. Ids are the 128-bit values of
//! UUIDs, times are microseconds since the Unix epoch.
use vstd::prelude::*;

use crate::types::{
    CurriculumSummary, EdgeType, NodeStatus, NodeSummary, NodeType, VideoSummary,
};

verus! {

/// A stored curriculum.
#[derive(Debug, Clone)]
pub struct CurriculumRow {
    pub id: u128,
    pub title: String,
    pub description: String,
    pub topic: String,
    pub created_at: i64,
}

impl CurriculumRow {
    /// The curriculum as listed.
    pub fn to_summary(&self) -> (r: CurriculumSummary)
        ensures
            r.id == self.id,
            r.title == self.title,
            r.topic == self.topic,
            r.created_at == self.created_at,
    {
        CurriculumSummary {
            id: self.id,
            title: self.title.clone(),
            topic: self.topic.clone(),
            created_at: self.created_at,
        }
    }
}

/// A stored node.
#[derive(Debug, Clone)]
pub struct NodeRow {
    pub id: u128,
    pub curriculum_id: u128,
    pub title: String,
    pub summary: String,
    pub content: String,
    pub node_type: NodeType,
    pub depth: i32,
    pub position: i32,
    pub status: NodeStatus,
    pub parent_node_id: Option<u128>,
    pub created_at: i64,
}

impl NodeRow {
    /// The node as listed.
    pub fn to_summary(&self) -> (r: NodeSummary)
        ensures
            r.id == self.id,
            r.title == self.title,
            r.summary == self.summary,
            r.node_type == self.node_type,
            r.status == self.status,
            r.depth == self.depth,
            r.position == self.position,
    {
        NodeSummary {
            id: self.id,
            title: self.title.clone(),
            summary: self.summary.clone(),
            node_type: self.node_type,
            status: self.status,
            depth: self.depth,
            position: self.position,
        }
    }
}

/// A stored edge between two nodes.
#[derive(Debug, Clone, Copy)]
pub struct EdgeRow {
    pub id: u128,
    pub from_node: u128,
    pub to_node: u128,
    pub edge_type: EdgeType,
    pub position: i32,
}

impl EdgeRow {
    /// The edge that an insert reports: the stored row when the insert added one, else
    /// (the edge was there already) the requested edge under `fresh_id`.
    pub fn inserted_or(stored: Option<EdgeRow>, fresh_id: u128, from_node: u128, to_node: u128,
        edge_type: EdgeType, position: i32) -> (r: EdgeRow)
        ensures
            r == (match stored {
                Some(row) => row,
                None => EdgeRow { id: fresh_id, from_node, to_node, edge_type, position },
            }),
    {
        match stored {
            Some(row) => row,
            None => EdgeRow { id: fresh_id, from_node, to_node, edge_type, position },
        }
    }
}

/// A stored video of a node; `relevance_score_bits` holds the IEEE-754 bits of its score.
#[derive(Debug, Clone)]
pub struct VideoRow {
    pub id: u128,
    pub node_id: u128,
    pub youtube_id: String,
    pub title: String,
    pub channel_name: String,
    pub thumbnail_url: String,
    pub duration_secs: i32,
    pub view_count: i64,
    pub rank: i32,
    pub relevance_score_bits: u32,
    pub ai_rationale: String,
}

impl VideoRow {
    /// The video as listed.
    pub fn to_summary(&self) -> (r: VideoSummary)
        ensures
            r.id == self.id,
            r.youtube_id == self.youtube_id,
            r.title == self.title,
            r.channel_name == self.channel_name,
            r.thumbnail_url == self.thumbnail_url,
            r.duration_secs == self.duration_secs,
            r.rank == self.rank,
            r.relevance_score_bits == self.relevance_score_bits,
            r.ai_rationale == self.ai_rationale,
    {
        VideoSummary {
            id: self.id,
            youtube_id: self.youtube_id.clone(),
            title: self.title.clone(),
            channel_name: self.channel_name.clone(),
            thumbnail_url: self.thumbnail_url.clone(),
            duration_secs: self.duration_secs,
            rank: self.rank,
            relevance_score_bits: self.relevance_score_bits,
            ai_rationale: self.ai_rationale.clone(),
        }
    }
}

} // verus!
