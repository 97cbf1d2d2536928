use learning_core::domains::graph::assembler::{assemble_topic_graph, group_notes, notes_in, NoteRow};
use learning_core::domains::graph::dedup::embedding_text;
use learning_core::domains::graph::entry::topic_description;
use learning_core::domains::graph::models::{
    EdgeState, Movement, Node, NodeState, Note, Resource, TopicRoot,
};
use learning_core::domains::graph::queries::{
    increment_backup_cypher, increment_traversal_cypher, query_ids, visible_subgraph, EdgeRow,
};
use learning_core::domains::graph::traversal::{
    back_up_from, back_up_plan, back_up_to, check_edge, check_target, step_record,
};
use learning_core::domains::graph::weights::Weight;
use learning_core::error::Error;
use learning_core::domains::graph::queries::topic_root_of_row;
use learning_core::domains::graph::client::{schema_error_is_expected, CONSTRAINTS};

fn node(id: u128, root: u128, title: &str) -> Node {
    Node {
        id,
        title: title.to_string(),
        description: format!("about {}", title),
        topic_root_id: root,
        resources: Vec::new(),
        visit_count: 0,
        depth: 1,
    }
}

#[test]
fn movement_names_round_trip() {
    for m in Movement::all() {
        assert_eq!(Movement::from_relationship_type(m.as_relationship_type()), Some(*m));
        assert_eq!(m.cypher_types()[0], m.as_relationship_type());
    }
    assert_eq!(Movement::all().len(), 5);
    assert_eq!(Movement::from_relationship_type("SUPPORTS"), Some(Movement::Foundation));
    assert_eq!(Movement::from_relationship_type("DEEPENS"), Some(Movement::Deeper));
    assert_eq!(Movement::from_relationship_type("CONTEXTUALIZES"), Some(Movement::Broader));
    assert_eq!(Movement::from_relationship_type("deeper"), None);
    assert_eq!(Movement::Practice.cypher_types(), &["PRACTICE", "APPLIES"]);
    assert_eq!(Movement::all_relationship_types().len(), 10);
}

#[test]
fn traversal_checks() {
    assert_eq!(
        check_target(&None, 1).unwrap_err(),
        Error::Validation("Target node does not exist".to_string())
    );
    assert_eq!(
        check_target(&Some(node(5, 2, "n")), 1).unwrap_err(),
        Error::Validation("Target node does not belong to this topic".to_string())
    );
    assert!(check_target(&Some(node(5, 1, "n")), 1).is_ok());
    assert!(check_edge(true, Movement::Deeper).is_ok());
    assert_eq!(
        check_edge(false, Movement::Inspire).unwrap_err(),
        Error::Validation("No INSPIRE edge exists from the current node to the target node".to_string())
    );
    let rec = step_record(1, 2, 3, 4, Movement::Broader);
    assert_eq!((rec.node_id, rec.previous_node_id, rec.is_backtrack), (4, 3, false));
    assert_eq!(rec.movement_type, Some("BROADER".to_string()));
}

#[test]
fn back_up_steps() {
    assert_eq!(back_up_from(None, 1).unwrap_err(), Error::NotFound("No active position".to_string()));
    assert_eq!(
        back_up_from(Some(1), 1).unwrap_err(),
        Error::Validation("Already at the topic root — cannot back up further".to_string())
    );
    assert_eq!(back_up_from(Some(7), 1).unwrap(), 7);
    assert_eq!(
        back_up_to(None).unwrap_err(),
        Error::Validation("No previous node to back up to".to_string())
    );
    let plan = back_up_plan(9, 1, 7, 6, Some("DEEPENS".to_string()));
    assert_eq!(plan.downvote, Some(Movement::Deeper));
    assert_eq!(plan.position, 6);
    assert_eq!((plan.record.node_id, plan.record.previous_node_id, plan.record.is_backtrack), (6, 7, true));
    assert_eq!(plan.record.movement_type, Some("DEEPENS".to_string()));
    assert_eq!(back_up_plan(9, 1, 7, 6, Some("NOPE".to_string())).downvote, None);
    assert_eq!(back_up_plan(9, 1, 7, 6, None).downvote, None);
}

#[test]
fn counter_update_statements() {
    let t = increment_traversal_cypher(Movement::Practice);
    assert!(t.starts_with("MATCH (a {id: $source_id})-[r:PRACTICE]->(b {id: $target_id}) SET r.traversals = r.traversals + 1"));
    let b = increment_backup_cypher(Movement::Deeper);
    assert!(b.starts_with("MATCH (a {id: $source_id})-[r:DEEPER]->(b {id: $target_id}) SET r.backups = r.backups + 1"));
    assert!(b.ends_with("/ toFloat(r.traversals + r.backups + 1) END"));
}

#[test]
fn texts_for_entry_and_dedup() {
    assert_eq!(topic_description("jazz piano"), "Topic graph for: jazz piano");
    assert_eq!(embedding_text("Scales", "Major and minor"), "Scales Major and minor");
}

#[test]
fn missing_topic_root() {
    let r = visible_subgraph(None, 0xa0ee_bc99_9c0b_4ef8_bb6d_6bb9_bd38_0a11, Vec::new(), Vec::new(), Vec::new());
    assert_eq!(
        r.unwrap_err(),
        Error::NotFound("TopicRoot a0eebc99-9c0b-4ef8-bb6d-6bb9bd380a11".to_string())
    );
}

#[test]
fn query_ids_add_current_once() {
    assert_eq!(query_ids(&vec![3, 4], 5), vec![3, 4, 5]);
    assert_eq!(query_ids(&vec![3, 5], 5), vec![3, 5]);
}

#[test]
fn assembled_graph_marks_states_and_orders_proposals() {
    let root = 1u128;
    let topic = TopicRoot { id: root, name: "Jazz".into(), description: "d".into() };
    // Learner went root -> 10; 10 has proposals 20 (light) and 30 (heavy).
    let fetched = vec![Some(node(10, root, "ten"))];
    let rows = vec![
        EdgeRow { source_id: 10, movement: Movement::Deeper, weight: Weight { traversals: 1, backups: 1 }, target: node(20, root, "twenty") },
        EdgeRow { source_id: 10, movement: Movement::Practice, weight: Weight { traversals: 5, backups: 0 }, target: node(30, root, "thirty") },
    ];
    let sub = visible_subgraph(Some(topic), root, fetched, rows, vec![node(10, root, "ten")]).unwrap();
    let notes = vec![NoteRow { node_id: 30, note: Note { id: 99, body: "nice".into(), created_at: 7 } }];
    let g = assemble_topic_graph(sub, &vec![10], Some(10), root, &notes);
    assert_eq!(g.current_node_id, 10);
    assert_eq!(g.topic_root.name, "Jazz");
    let ids: Vec<u128> = g.nodes.iter().map(|n| n.id).collect();
    assert_eq!(ids, vec![1, 10, 30, 20]);
    assert_eq!(g.nodes[0].state, NodeState::TopicRoot);
    assert_eq!(g.nodes[0].title, "Jazz");
    assert_eq!(g.nodes[1].state, NodeState::Current);
    assert_eq!(g.nodes[1].movement, Some(Movement::Foundation));
    assert_eq!(g.nodes[2].state, NodeState::Proposal);
    assert_eq!(g.nodes[2].movement, Some(Movement::Practice));
    assert_eq!(g.nodes[2].notes.len(), 1);
    assert_eq!(g.nodes[2].notes[0].body, "nice");
    assert_eq!(g.nodes[3].notes.len(), 0);
    let starts: Vec<_> = g.edges.iter().filter(|e| e.source_id == root).collect();
    assert_eq!(starts.len(), 1);
    assert_eq!(starts[0].state, EdgeState::Traversed);
    assert_eq!(starts[0].movement, Movement::Foundation);
    let to20 = g.edges.iter().find(|e| e.target_id == 20).unwrap();
    assert_eq!(to20.state, EdgeState::Proposal);
    assert_eq!(to20.id, "00000000-0000-0000-0000-00000000000a-00000000-0000-0000-0000-000000000014");
}

#[test]
fn resource_copies_are_equal() {
    let r = Resource {
        resource_type: "article".into(),
        youtube_id: None,
        url: Some("https://x".into()),
        title: "t".into(),
        channel: None,
        reason: "r".into(),
        votes: 3,
    };
    let c = r.duplicate();
    assert_eq!((c.url, c.votes, c.title), (r.url.clone(), 3, r.title.clone()));
}

#[test]
fn stored_topic_roots_need_uuid_ids() {
    let t = topic_root_of_row("00000000-0000-0000-0000-00000000002a", "n".into(), "d".into()).unwrap();
    assert_eq!((t.id, t.name.as_str()), (42, "n"));
    assert_eq!(
        topic_root_of_row("42", "n".into(), "d".into()).unwrap_err(),
        Error::Internal("invalid uuid".to_string())
    );
}

#[test]
fn existing_schema_is_expected() {
    assert!(schema_error_is_expected("Constraint already exists"));
    assert!(!schema_error_is_expected("syntax error"));
    assert_eq!(CONSTRAINTS.len(), 2);
}

#[test]
fn backing_up_returns_to_the_step_start() {
    let step = step_record(9, 1, 5, 6, Movement::Practice);
    let plan = back_up_plan(9, 1, step.node_id, step.previous_node_id, step.movement_type.clone());
    assert_eq!(plan.position, 5);
    assert_eq!(plan.downvote, Some(Movement::Practice));
    assert_eq!((plan.record.node_id, plan.record.previous_node_id), (5, 6));
    assert_eq!(plan.record.movement_type, step.movement_type);
}

#[test]
fn notes_are_grouped_by_node_in_store_order() {
    let note = |id: u128, body: &str| Note { id, body: body.into(), created_at: id as i64 };
    let rows = vec![
        NoteRow { node_id: 1, note: note(10, "a") },
        NoteRow { node_id: 2, note: note(11, "b") },
        NoteRow { node_id: 1, note: note(12, "c") },
    ];
    let groups = group_notes(&rows);
    assert_eq!(groups.len(), 2);
    let one: Vec<u128> = notes_in(&groups, 1).iter().map(|n| n.id).collect();
    assert_eq!(one, vec![10, 12]);
    let two: Vec<String> = notes_in(&groups, 2).iter().map(|n| n.body.clone()).collect();
    assert_eq!(two, vec!["b".to_string()]);
    assert!(notes_in(&groups, 3).is_empty());
    assert!(group_notes(&Vec::new()).is_empty());
}
