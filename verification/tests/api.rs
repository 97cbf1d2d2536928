use learning_core::api::{extract_token_from_cookies, MutationRoot};
use learning_core::domains::graph::models::{GraphNode, NodeState, TopicGraph, TopicRoot};
use learning_core::error::Error;
use learning_core::openai::OpenAiClient;
use learning_core::web::{
    home_step, load_failure_message, shown_text, submit_enabled, title_text, CreateCurriculumResult,
    HomeAction, HomeEvent, HomeForm,
};

#[test]
fn token_cookie_is_found() {
    assert_eq!(extract_token_from_cookies(None).0, None);
    assert_eq!(extract_token_from_cookies(Some("token=abc")).0, Some("abc".to_string()));
    assert_eq!(
        extract_token_from_cookies(Some("theme=dark; token=abc; token=def")).0,
        Some("abc".to_string())
    );
    assert_eq!(extract_token_from_cookies(Some("tokens=abc; x=token=1")).0, None);
    assert_eq!(extract_token_from_cookies(Some("  token=  ")).0, Some("".to_string()));
    assert_eq!(extract_token_from_cookies(Some("")).0, None);
}

fn gnode(id: u128, title: &str, state: NodeState) -> GraphNode {
    GraphNode {
        id,
        title: title.into(),
        description: String::new(),
        resources: Vec::new(),
        notes: Vec::new(),
        state,
        movement: None,
        is_wildcard: false,
        visit_count: 0,
        depth: 0,
    }
}

fn graph() -> TopicGraph {
    TopicGraph {
        topic_root: TopicRoot { id: 1, name: "Root".into(), description: String::new() },
        current_node_id: 3,
        nodes: vec![
            gnode(1, "Root", NodeState::TopicRoot),
            gnode(2, "Seen", NodeState::Visited),
            gnode(3, "Here", NodeState::Current),
            gnode(4, "Maybe", NodeState::Proposal),
        ],
        edges: Vec::new(),
    }
}

#[test]
fn question_node_and_path() {
    let g = graph();
    assert_eq!(MutationRoot::question_node(&g, 4).unwrap().title, "Maybe");
    assert_eq!(
        MutationRoot::question_node(&g, 9).unwrap_err(),
        Error::NotFound("Node not found in graph".to_string())
    );
    assert_eq!(MutationRoot::visited_titles(&g), vec!["Seen".to_string(), "Here".to_string()]);
}

#[test]
fn entering_a_topic_sets_a_position_once() {
    assert_eq!(MutationRoot::entry_position(None, 1), Some(1));
    assert_eq!(MutationRoot::entry_position(Some(5), 1), None);
}

#[test]
fn topic_of_node_from_stored_id() {
    assert_eq!(
        MutationRoot::topic_root_of_node(Some("a0eebc99-9c0b-4ef8-bb6d-6bb9bd380a11")).unwrap(),
        0xa0ee_bc99_9c0b_4ef8_bb6d_6bb9_bd38_0a11
    );
    assert_eq!(
        MutationRoot::topic_root_of_node(Some("A0EEBC999C0B4EF8BB6D6BB9BD380A11")).unwrap(),
        0xa0ee_bc99_9c0b_4ef8_bb6d_6bb9_bd38_0a11
    );
    assert_eq!(
        MutationRoot::topic_root_of_node(Some("not-a-uuid")).unwrap_err(),
        Error::Validation("Invalid topic_root_id".to_string())
    );
    assert_eq!(
        MutationRoot::topic_root_of_node(None).unwrap_err(),
        Error::NotFound("Could not find topic for this node".to_string())
    );
}

#[test]
fn agents_use_their_models() {
    let a = learning_core::api::create_ai_agent("k".to_string());
    assert_eq!((a.model.as_str(), a.app_name.as_str(), a.api_key.as_str()), ("google/gemini-2.5-flash", "ourmeadow", "k"));
    let e = learning_core::api::create_embed_agent("k".to_string());
    assert_eq!(e.model, "openai/text-embedding-3-small");
}

#[test]
fn openai_client_addresses() {
    let c = OpenAiClient::new("sk-1");
    assert_eq!(c.authorization(), "Bearer sk-1");
    assert_eq!(c.chat_url(), "https://api.openai.com/v1/chat/completions");
    let r = c.with_base_url("https://openrouter.ai/api/v1");
    assert_eq!(r.embeddings_url(), "https://openrouter.ai/api/v1/embeddings");
    assert_eq!(r.authorization(), "Bearer sk-1");
}

#[test]
fn browser_addresses() {
    assert_eq!(
        learning_core::web::workflow_run_url("http://localhost:8080", "abc"),
        "http://localhost:8080/CurriculumWorkflow/abc/run/send"
    );
    assert_eq!(
        learning_core::web::workflow_attach_url("http://i", "w"),
        "http://i/restate/workflow/CurriculumWorkflow/w/attach"
    );
    assert_eq!(learning_core::web::curricula_url("http://a"), "http://a/api/curricula");
    assert_eq!(learning_core::web::curriculum_url("http://a", "1"), "http://a/api/curricula/1");
    assert_eq!(learning_core::web::node_url("http://a", "2"), "http://a/api/nodes/2");
    assert_eq!(learning_core::web::text_or_empty(None), "");
    assert_eq!(learning_core::web::text_or_empty(Some("x")), "x");
}

#[test]
fn home_page_flow() {
    let form = HomeForm { topic: String::new(), creating: false, error: None };
    assert!(!submit_enabled(&form));
    let (form, action) = home_step(form, HomeEvent::Typed("  bansuri ".into()));
    assert!(matches!(action, HomeAction::Nothing));
    assert!(submit_enabled(&form));
    let (form, action) = home_step(form, HomeEvent::Submitted);
    assert!(form.creating);
    assert!(!submit_enabled(&form));
    match action {
        HomeAction::CreateCurriculum(t) => assert_eq!(t, "bansuri"),
        _ => panic!("expected a request"),
    }
    let (failed, _) = home_step(form.clone(), HomeEvent::Created(Err("timeout".into())));
    assert!(!failed.creating);
    assert_eq!(failed.error, Some("Failed to create curriculum: timeout".to_string()));
    let (done, action) = home_step(
        form,
        HomeEvent::Created(Ok(CreateCurriculumResult { curriculum_id: "c1".into(), title: "T".into() })),
    );
    assert!(!done.creating);
    assert!(matches!(action, HomeAction::ShowCurriculum(id) if id == "c1"));
    let blank = HomeForm { topic: "   ".into(), creating: false, error: None };
    let (same, action) = home_step(blank, HomeEvent::Submitted);
    assert!(!same.creating);
    assert!(matches!(action, HomeAction::Nothing));
}

#[test]
fn page_texts() {
    assert_eq!(load_failure_message("node", "404"), "Failed to load node: 404");
    assert_eq!(title_text(None), "Untitled");
    assert_eq!(title_text(Some("T")), "T");
    assert_eq!(shown_text(Some("")), None);
    assert_eq!(shown_text(Some("x")), Some("x".to_string()));
    assert_eq!(shown_text(None), None);
}
