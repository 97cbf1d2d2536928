use learning_core::domains::ai::agent::{ProposedNode, ProposedResource};
use learning_core::domains::ai::ask::ask_context;
use learning_core::domains::ai::prompts::{
    EXPANSION_SUGGESTIONS_PROMPT, INVESTIGATION_SYSTEM_PROMPT, STARTING_POINTS_PROMPT,
    STEERED_INVESTIGATION_PROMPT,
};
use learning_core::domains::ai::proposer::{
    investigation_prompts, needs_investigation, path_context, proposal_depth, proposal_movement,
    suggestion_prompts, PathStep,
};
use learning_core::domains::ai::refresh::{load_more_prompt, merge_resources};
use learning_core::domains::ai::starting_points::starting_points_prompts;
use learning_core::domains::graph::models::{GraphNode, Movement, Node, NodeState, Resource};
use learning_core::error::Error;

fn resource(kind: &str, title: &str, url: Option<&str>) -> Resource {
    Resource {
        resource_type: kind.into(),
        youtube_id: None,
        url: url.map(|u| u.to_string()),
        title: title.into(),
        channel: None,
        reason: "good".into(),
        votes: 0,
    }
}

#[test]
fn investigation_needed_when_sparse_or_steered() {
    assert!(needs_investigation(false, 2));
    assert!(!needs_investigation(false, 3));
    assert!(needs_investigation(true, 10));
}

#[test]
fn proposal_depths() {
    assert_eq!(proposal_depth(Movement::Deeper, 3), 4);
    assert_eq!(proposal_depth(Movement::Broader, 3), 3);
    assert_eq!(proposal_depth(Movement::Practice, 3), 3);
    assert_eq!(proposal_depth(Movement::Inspire, 0), 0);
    assert_eq!(proposal_depth(Movement::Foundation, 3), 2);
    assert_eq!(proposal_depth(Movement::Foundation, 1), 1);
    assert_eq!(proposal_depth(Movement::Foundation, 2), 1);
    assert_eq!(proposal_movement("PRACTICE"), Movement::Practice);
    assert_eq!(proposal_movement("RELATES_TO"), Movement::Broader);
    assert_eq!(proposal_movement("???"), Movement::Foundation);
}

#[test]
fn investigation_prompt_texts() {
    let n = Node {
        id: 1,
        title: "Scales".into(),
        description: "Major scales".into(),
        topic_root_id: 9,
        resources: Vec::new(),
        visit_count: 0,
        depth: 2,
    };
    let (sys, p) = investigation_prompts("PATH", "Scales", &Some(n), None);
    assert_eq!(sys, INVESTIGATION_SYSTEM_PROMPT);
    assert_eq!(
        p,
        "PATH\n\nCurrent node: \"Scales\" at depth 2.\nGenerate 3 proposals. The DEEPER proposal must be noticeably more advanced than depth 2."
    );
    let (sys, p) = investigation_prompts("PATH", "Scales", &None, Some("modes"));
    assert_eq!(sys, STEERED_INVESTIGATION_PROMPT);
    assert_eq!(
        p,
        "PATH\n\nCurrent node: \"Scales\" at depth 1.\nThe learner wants to explore: \"modes\"\nGenerate 3 proposals aligned with this direction."
    );
}

#[test]
fn suggestion_prompt_text() {
    let (sys, p) = suggestion_prompts("PATH", "Raga Yaman", &None);
    assert_eq!(sys, EXPANSION_SUGGESTIONS_PROMPT);
    assert_eq!(
        p,
        "PATH\n\nCurrent node: \"Raga Yaman\" — \nDepth: 1\n\nGenerate 3 expansion direction suggestions."
    );
}

#[test]
fn learner_path_text() {
    assert_eq!(
        path_context(None, &Vec::new()),
        "The learner's path (earliest → most recent):\n1. \"Topic\" (ROOT)"
    );
    let steps = vec![
        PathStep { node_id: 5, title: Some("Breath".into()), movement: Some("FOUNDATION".into()) },
        PathStep { node_id: 0x10, title: None, movement: None },
    ];
    assert_eq!(
        path_context(Some("Bansuri".into()), &steps),
        "The learner's path (earliest → most recent):\n1. \"Bansuri\" (ROOT)\n2. \"Breath\" (FOUNDATION, depth 1)\n3. \"00000000-0000-0000-0000-000000000010\" (TRAVERSED, depth 2)"
    );
}

#[test]
fn question_context_text() {
    let node = GraphNode {
        id: 1,
        title: "Scales".into(),
        description: "Major scales".into(),
        resources: vec![resource("video", "Intro", None), resource("article", "Theory", None)],
        notes: Vec::new(),
        state: NodeState::Current,
        movement: None,
        is_wildcard: false,
        visit_count: 0,
        depth: 1,
    };
    assert_eq!(
        ask_context(&node, &["Music".to_string(), "Scales".to_string()], "Why?"),
        "Current node: Scales — Major scales\nResources: video: Intro, article: Theory\nLearning path: Music → Scales\n\nLearner's question: Why?"
    );
    assert_eq!(
        ask_context(&node, &[], "Why?"),
        "Current node: Scales — Major scales\nResources: video: Intro, article: Theory\nLearning path: Just started\n\nLearner's question: Why?"
    );
}

#[test]
fn load_more_request_lists_existing() {
    let existing = vec![resource("video", "Intro", Some("https://a")), resource("article", "Theory", None)];
    assert_eq!(
        load_more_prompt("Scales", "Major", &existing),
        "Find more resources for the topic: \"Scales\" — Major\n\nExisting resources (DO NOT repeat these):\n- Intro (video): https://a\n- Theory (article): no url\n\nFind new, different resources to add."
    );
}

fn proposal(resources: Vec<ProposedResource>) -> ProposedNode {
    ProposedNode { title: "t".into(), description: "d".into(), movement: "FOUNDATION".into(), resources }
}

fn proposed(title: &str, url: &str) -> ProposedResource {
    ProposedResource {
        resource_type: "youtube".into(),
        youtube_id: None,
        url: Some(url.into()),
        title: title.into(),
        channel: None,
        reason: "r".into(),
    }
}

#[test]
fn merged_resources_append_new_ones() {
    let existing = vec![resource("video", "Intro", None)];
    let all = merge_resources(
        &existing,
        vec![
            proposal(vec![proposed("A", "https://youtu.be/juxycZTFZ6M")]),
            proposal(vec![]),
            proposal(vec![proposed("B", "https://b"), proposed("C", "https://c")]),
        ],
    )
    .unwrap();
    let titles: Vec<&str> = all.iter().map(|r| r.title.as_str()).collect();
    assert_eq!(titles, vec!["Intro", "A", "B", "C"]);
    assert_eq!(all[1].youtube_id, Some("juxycZTFZ6M".to_string()));
    assert_eq!(
        merge_resources(&existing, vec![proposal(vec![])]).unwrap_err(),
        Error::Ai("AI did not find any new resources".to_string())
    );
}

#[test]
fn starting_points_request() {
    let (sys, p) = starting_points_prompts("Bansuri");
    assert_eq!(sys, INVESTIGATION_SYSTEM_PROMPT);
    assert!(p.starts_with(STARTING_POINTS_PROMPT));
    assert!(p.ends_with("\n\nThe topic is: \"Bansuri\"\n\nGenerate 3-5 starting points. Each should be a fundamentally different entry angle into this subject."));
}
