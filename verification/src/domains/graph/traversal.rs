//! Moving through a topic graph: the checks on a step forward, what a step back undoes, and
//! the history rows both leave.
use vstd::prelude::*;

use crate::domains::graph::models::{
    lemma_relationship_round_trip, movement_of_name, relationship_name, Movement, Node,
};
use crate::error::Error;
use crate::text::push_str;

verus! {

broadcast use vstd::string::group_string_axioms;

/// A row of a learner's traversal history: a move to `node_id` from `previous_node_id`.
#[derive(Debug, Clone)]
pub struct TraversalRecord {
    pub member_id: u128,
    pub topic_root_id: u128,
    pub node_id: u128,
    pub previous_node_id: u128,
    pub movement_type: Option<String>,
    pub is_backtrack: bool,
}

/// What a history row records, as plain values.
pub struct RecordView {
    pub member_id: u128,
    pub topic_root_id: u128,
    pub node_id: u128,
    pub previous_node_id: u128,
    pub movement_type: Option<Seq<char>>,
    pub is_backtrack: bool,
}

impl View for TraversalRecord {
    type V = RecordView;

    open spec fn view(&self) -> RecordView {
        RecordView {
            member_id: self.member_id,
            topic_root_id: self.topic_root_id,
            node_id: self.node_id,
            previous_node_id: self.previous_node_id,
            movement_type: opt_text(self.movement_type),
            is_backtrack: self.is_backtrack,
        }
    }
}

/// The history row of a step from `from` to `to` along `m`.
pub open spec fn step_view(member_id: u128, topic_root_id: u128, from: u128, to: u128, m: Movement) -> RecordView {
    RecordView {
        member_id,
        topic_root_id,
        node_id: to,
        previous_node_id: from,
        movement_type: Some(relationship_name(m)),
        is_backtrack: false,
    }
}

/// The edge a step back downvotes, given the movement name of the last move.
pub open spec fn downvote_of(movement_type: Option<Seq<char>>) -> Option<Movement> {
    match movement_type {
        Some(name) => movement_of_name(name),
        None => None,
    }
}

/// The history row of a step back from `current` to `previous`.
pub open spec fn backtrack_view(
    member_id: u128,
    topic_root_id: u128,
    current: u128,
    previous: u128,
    movement_type: Option<Seq<char>>,
) -> RecordView {
    RecordView {
        member_id,
        topic_root_id,
        node_id: previous,
        previous_node_id: current,
        movement_type,
        is_backtrack: true,
    }
}

/// The view of an optional text.
pub open spec fn opt_text(o: Option<String>) -> Option<Seq<char>> {
    match o {
        Some(s) => Some(s@),
        None => None,
    }
}

/// The error for a step whose edge is missing.
pub open spec fn missing_edge_message(m: Movement) -> Seq<char> {
    "No "@ + relationship_name(m) + " edge exists from the current node to the target node"@
}

/// The first checks on a step to `target`: it must exist and belong to the topic.
pub fn check_target(target: &Option<Node>, topic_root_id: u128) -> (r: Result<(), Error>)
    ensures
        match target {
            None => r matches Err(Error::Validation(m)) && m@ == "Target node does not exist"@,
            Some(n) => if n.topic_root_id != topic_root_id {
                r matches Err(Error::Validation(m)) && m@
                    == "Target node does not belong to this topic"@
            } else {
                r is Ok
            },
        },
{
    match target {
        None => Err(Error::Validation(String::from_str("Target node does not exist"))),
        Some(n) => {
            if n.topic_root_id != topic_root_id {
                Err(Error::Validation(String::from_str("Target node does not belong to this topic")))
            } else {
                Ok(())
            }
        },
    }
}

/// The last check on a step: an edge of the chosen movement must lead to the target.
pub fn check_edge(edge_exists: bool, movement: Movement) -> (r: Result<(), Error>)
    ensures
        if edge_exists {
            r is Ok
        } else {
            r matches Err(Error::Validation(m)) && m@ == missing_edge_message(movement)
        },
{
    if edge_exists {
        Ok(())
    } else {
        let mut m = String::from_str("No ");
        push_str(&mut m, movement.as_relationship_type());
        push_str(&mut m, " edge exists from the current node to the target node");
        Err(Error::Validation(m))
    }
}

/// The history row of a step forward.
pub fn step_record(member_id: u128, topic_root_id: u128, from_node_id: u128, to_node_id: u128,
    movement: Movement) -> (r: TraversalRecord)
    ensures
        r@ == step_view(member_id, topic_root_id, from_node_id, to_node_id, movement),
{
    TraversalRecord {
        member_id,
        topic_root_id,
        node_id: to_node_id,
        previous_node_id: from_node_id,
        movement_type: Some(String::from_str(movement.as_relationship_type())),
        is_backtrack: false,
    }
}

/// Where a step back starts: the learner's position, which must exist and not be the root.
pub fn back_up_from(current: Option<u128>, topic_root_id: u128) -> (r: Result<u128, Error>)
    ensures
        match current {
            None => r matches Err(Error::NotFound(m)) && m@ == "No active position"@,
            Some(c) => if c == topic_root_id {
                r matches Err(Error::Validation(m)) && m@
                    == "Already at the topic root — cannot back up further"@
            } else {
                r == Ok::<u128, Error>(c)
            },
        },
{
    match current {
        None => Err(Error::NotFound(String::from_str("No active position"))),
        Some(c) => {
            if c == topic_root_id {
                Err(
                    Error::Validation(
                        String::from_str("Already at the topic root — cannot back up further"),
                    ),
                )
            } else {
                Ok(c)
            }
        },
    }
}

/// Where a step back leads: the node the learner last came from.
pub fn back_up_to(previous: Option<u128>) -> (r: Result<u128, Error>)
    ensures
        match previous {
            None => r matches Err(Error::Validation(m)) && m@ == "No previous node to back up to"@,
            Some(p) => r == Ok::<u128, Error>(p),
        },
{
    match previous {
        None => Err(Error::Validation(String::from_str("No previous node to back up to"))),
        Some(p) => Ok(p),
    }
}

/// What a step back from `current` to `previous` does.
#[derive(Debug, Clone)]
pub struct BackUp {
    /// The edge to count a backup against, when its movement is known.
    pub downvote: Option<Movement>,
    /// The history row of the step back.
    pub record: TraversalRecord,
    /// The learner's new position.
    pub position: u128,
}

/// A step back from `current` to `previous`, where the last move into `current` was of
/// `movement_type`: the edge of that movement from `previous` to `current` is downvoted when
/// the name is known, the backtrack is recorded, and the learner stands on `previous`.
pub fn back_up_plan(member_id: u128, topic_root_id: u128, current: u128, previous: u128,
    movement_type: Option<String>) -> (r: BackUp)
    ensures
        r.downvote == downvote_of(opt_text(movement_type)),
        r.record@ == backtrack_view(member_id, topic_root_id, current, previous, opt_text(movement_type)),
        r.position == previous,
{
    let downvote = match &movement_type {
        Some(name) => Movement::from_relationship_type(name.as_str()),
        None => None,
    };
    BackUp {
        downvote,
        record: TraversalRecord {
            member_id,
            topic_root_id,
            node_id: previous,
            previous_node_id: current,
            movement_type,
            is_backtrack: true,
        },
        position: previous,
    }
}

// ─── Laws ──────────────────────────────────────────────────────────

/// Backing up right after a step undoes it: the learner is back where the step started, the
/// edge taken is the one downvoted, and the backtrack row mirrors the step's row.
pub proof fn lemma_back_up_undoes_step(member_id: u128, topic_root_id: u128, from: u128, to: u128, m: Movement)
    ensures
        ({
            let step = step_view(member_id, topic_root_id, from, to, m);
            let back = backtrack_view(
                member_id,
                topic_root_id,
                step.node_id,
                step.previous_node_id,
                step.movement_type,
            );
            &&& downvote_of(step.movement_type) == Some(m)
            &&& back.node_id == from
            &&& back.previous_node_id == to
            &&& back.movement_type == step.movement_type
            &&& back.is_backtrack && !step.is_backtrack
        }),
{
    lemma_relationship_round_trip(m);
}

} // verus!
