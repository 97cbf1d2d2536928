use learning_core::config::AppConfig;
use learning_core::curriculum::generate_curriculum::{
    api_key_for, extract_json, outline_prompt, provider_of, AiProvider,
};
use learning_core::curriculum::models::{CurriculumRow, EdgeRow, NodeRow, VideoRow};
use learning_core::curriculum::workflow::{
    chapter_rows, expand_response, next_edges, node_not_found_message, node_status_text,
    workflow_status, ExpandNodeRequest,
};
use learning_core::error::Error;
use learning_core::prompt_registry::PromptRegistry;
use learning_core::types::{
    ChapterOutline, CurriculumOutline, EdgeType, ExpandAction, NodeEdges, NodeStatus, NodeType,
};

#[test]
fn outline_json_from_fenced_answer() {
    assert_eq!(
        extract_json("Sure!\n```json\n  {\"title\": \"T\"}  \n```\nBye").unwrap(),
        "{\"title\": \"T\"}"
    );
    assert_eq!(extract_json("```js\n{\"a\": 1}\n```").unwrap(), "{\"a\": 1}");
    assert_eq!(extract_json("x {\"a\": {\"b\": 2}} y").unwrap(), "{\"a\": {\"b\": 2}}");
    assert_eq!(
        extract_json("nothing").unwrap_err(),
        Error::Internal("No JSON found in AI response".to_string())
    );
}

#[test]
fn outline_prompt_fills_topic_and_count() {
    let prompts = PromptRegistry::new(vec![(
        "generate_curriculum".to_string(),
        "Teach {{topic}} in {{chapter_count}} chapters".to_string(),
    )]);
    assert_eq!(outline_prompt(&prompts, "Rust", 12).unwrap(), "Teach Rust in 12 chapters");
    let empty = PromptRegistry::new(Vec::new());
    assert_eq!(
        outline_prompt(&empty, "Rust", 12).unwrap_err(),
        Error::Internal("Prompt template not found: generate_curriculum".to_string())
    );
}

#[test]
fn providers_and_keys() {
    assert_eq!(provider_of("anthropic").unwrap(), AiProvider::Anthropic);
    assert_eq!(provider_of("openai").unwrap(), AiProvider::OpenAi);
    assert_eq!(
        provider_of("mistral").unwrap_err(),
        Error::Internal("Unknown AI provider: mistral".to_string())
    );
    let mut config = AppConfig::from_vars(&vec![("DATABASE_URL".to_string(), "d".to_string())]).unwrap();
    assert_eq!(
        api_key_for(AiProvider::Anthropic, &config).unwrap_err(),
        Error::Internal("ANTHROPIC_API_KEY not set".to_string())
    );
    assert_eq!(
        api_key_for(AiProvider::OpenAi, &config).unwrap_err(),
        Error::Internal("OPENAI_API_KEY not set".to_string())
    );
    config.openai_api_key = Some("sk".to_string());
    assert_eq!(api_key_for(AiProvider::OpenAi, &config).unwrap(), "sk");
}

#[test]
fn chapters_are_stored_in_order_and_chained() {
    let outline = CurriculumOutline {
        title: "T".into(),
        description: "D".into(),
        chapters: vec![
            ChapterOutline { title: "a".into(), summary: "sa".into(), content: "ca".into() },
            ChapterOutline { title: "b".into(), summary: "sb".into(), content: "cb".into() },
            ChapterOutline { title: "c".into(), summary: "sc".into(), content: "cc".into() },
        ],
    };
    let rows = chapter_rows(&outline);
    assert_eq!(rows.len(), 3);
    assert_eq!(rows[1].title, "b");
    assert_eq!(rows[2].content, "cc");
    assert_eq!(rows[2].position, 2);
    assert_eq!(rows[0].depth, 0);
    assert_eq!(rows[0].node_type, NodeType::Chapter);
    assert_eq!(rows[0].parent_node_id, None);
    assert_eq!(next_edges(&vec![7, 8, 9]), vec![(7, 8), (8, 9)]);
    assert_eq!(next_edges(&vec![7]), vec![]);
    assert_eq!(next_edges(&vec![]), vec![]);
}

#[test]
fn handler_answers() {
    assert_eq!(node_status_text(Some(NodeStatus::Generating)), "Generating");
    assert_eq!(node_status_text(None), "not_found");
    assert_eq!(workflow_status(), "running");
    assert_eq!(
        node_not_found_message(0xa0ee_bc99_9c0b_4ef8_bb6d_6bb9_bd38_0a11),
        "Node not found: a0eebc99-9c0b-4ef8-bb6d-6bb9bd380a11"
    );
    assert!(expand_response(&ExpandNodeRequest { action: ExpandAction::Deeper }).created_nodes.is_empty());
}

#[test]
fn rows_become_summaries() {
    let c = CurriculumRow { id: 1, title: "t".into(), description: "d".into(), topic: "p".into(), created_at: 5 };
    let s = c.to_summary();
    assert_eq!((s.id, s.title.as_str(), s.topic.as_str(), s.created_at), (1, "t", "p", 5));
    let n = NodeRow {
        id: 2,
        curriculum_id: 1,
        title: "n".into(),
        summary: "s".into(),
        content: "c".into(),
        node_type: NodeType::Page,
        depth: 1,
        position: 3,
        status: NodeStatus::Ready,
        parent_node_id: Some(9),
        created_at: 0,
    };
    let ns = n.to_summary();
    assert_eq!((ns.id, ns.depth, ns.position, ns.node_type, ns.status), (2, 1, 3, NodeType::Page, NodeStatus::Ready));
    let v = VideoRow {
        id: 3,
        node_id: 2,
        youtube_id: "y".into(),
        title: "v".into(),
        channel_name: "ch".into(),
        thumbnail_url: "u".into(),
        duration_secs: 60,
        view_count: 10,
        rank: 1,
        relevance_score_bits: 0.5f32.to_bits(),
        ai_rationale: "r".into(),
    };
    let vs = v.to_summary();
    assert_eq!(f32::from_bits(vs.relevance_score_bits), 0.5);
    assert_eq!(vs.channel_name, "ch");
    let stored = EdgeRow { id: 1, from_node: 2, to_node: 3, edge_type: EdgeType::Next, position: 0 };
    assert_eq!(EdgeRow::inserted_or(Some(stored), 9, 2, 3, EdgeType::Next, 0).id, 1);
    assert_eq!(EdgeRow::inserted_or(None, 9, 2, 3, EdgeType::Deeper, 4).id, 9);
    let mut edges = NodeEdges::new();
    edges.add(EdgeType::Deeper, ns.clone());
    edges.add(EdgeType::Sibling, ns.clone());
    edges.add(EdgeType::Deeper, ns);
    assert_eq!((edges.next.len(), edges.deeper.len(), edges.siblings.len()), (0, 2, 1));
}
