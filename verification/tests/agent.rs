use learning_core::domains::ai::agent::{
    after_answer, decode_failure, extract_json_array, extract_youtube_id, investigation_tools, is_id_char_exec,
    proposals_json, InvestigationStep, InvestigationTool, ProposedNode, ProposedResource,
};
use learning_core::domains::graph::models::Resource;
use learning_core::error::Error;

#[test]
fn test_extract_json_array_plain() {
    let input = r#"[{"title": "test"}]"#;
    assert_eq!(extract_json_array(input), Some(input.to_string()));
}

#[test]
fn test_extract_json_array_from_code_block() {
    let input = "Here are the proposals:\n```json\n[{\"title\": \"test\"}]\n```\n";
    assert_eq!(
        extract_json_array(input),
        Some("[{\"title\": \"test\"}]".to_string())
    );
}

#[test]
fn test_extract_youtube_id_watch_url() {
    let url = "https://www.youtube.com/watch?v=juxycZTFZ6M";
    assert_eq!(extract_youtube_id(Some(url)), Some("juxycZTFZ6M".to_string()));
}

#[test]
fn test_extract_youtube_id_short_url() {
    let url = "https://youtu.be/juxycZTFZ6M";
    assert_eq!(extract_youtube_id(Some(url)), Some("juxycZTFZ6M".to_string()));
}

#[test]
fn test_extract_youtube_id_playlist_returns_none() {
    let url = "https://www.youtube.com/playlist?list=PLRA7uxKdQNb0";
    assert_eq!(extract_youtube_id(Some(url)), None);
}

#[test]
fn test_extract_youtube_id_none_url() {
    assert_eq!(extract_youtube_id(None), None);
}

#[test]
fn youtube_id_needs_exactly_eleven_characters() {
    assert_eq!(extract_youtube_id(Some("https://www.youtube.com/watch?v=short")), None);
    assert_eq!(
        extract_youtube_id(Some("https://www.youtube.com/watch?v=juxycZTFZ6M&t=42")),
        Some("juxycZTFZ6M".to_string())
    );
    assert_eq!(
        extract_youtube_id(Some("https://www.youtube.com/watch?v=juxycZTFZ6Mextra")),
        None
    );
}

#[test]
fn json_array_found_in_plain_fence() {
    let input = "Result:\n```\n[1, 2]\n```";
    assert_eq!(extract_json_array(input), Some("[1, 2]".to_string()));
}

#[test]
fn json_array_found_between_brackets() {
    let input = "The list is [1, 2, 3] as requested.";
    assert_eq!(extract_json_array(input), Some("[1, 2, 3]".to_string()));
}

#[test]
fn json_array_found_inside_object() {
    let input = "```json\n{\"proposals\": [{\"title\": \"a\"}]}\n```";
    assert_eq!(
        extract_json_array(input),
        Some("[{\"title\":\"a\"}]".to_string())
    );
}

#[test]
fn json_array_missing() {
    assert_eq!(extract_json_array("no json here"), None);
    assert_eq!(
        proposals_json("no json here"),
        Err(Error::Ai("No JSON array found in agent response".to_string()))
    );
    assert_eq!(proposals_json(" [1] "), Ok("[1]".to_string()));
}

#[test]
fn proposed_resource_takes_video_id_from_url() {
    let r = Resource::from_proposed(ProposedResource {
        resource_type: "youtube".to_string(),
        youtube_id: None,
        url: Some("https://youtu.be/juxycZTFZ6M".to_string()),
        title: "Intro".to_string(),
        channel: None,
        reason: "clear".to_string(),
    });
    assert_eq!(r.youtube_id, Some("juxycZTFZ6M".to_string()));
    assert_eq!(r.votes, 0);
    let given = Resource::from_proposed(ProposedResource {
        resource_type: "youtube".to_string(),
        youtube_id: Some("abcdefghijk".to_string()),
        url: Some("https://youtu.be/juxycZTFZ6M".to_string()),
        title: "Intro".to_string(),
        channel: Some("chan".to_string()),
        reason: "clear".to_string(),
    });
    assert_eq!(given.youtube_id, Some("abcdefghijk".to_string()));
    assert_eq!(given.channel, Some("chan".to_string()));
}

#[test]
fn youtube_tools_need_a_key() {
    assert_eq!(
        investigation_tools(""),
        vec![InvestigationTool::TavilySearch, InvestigationTool::ExistingNodes]
    );
    assert_eq!(
        investigation_tools("key"),
        vec![
            InvestigationTool::TavilySearch,
            InvestigationTool::ExistingNodes,
            InvestigationTool::YoutubeSearch,
            InvestigationTool::YoutubeDetails
        ]
    );
}

#[test]
fn unreadable_answer_is_retried_once() {
    let failed: Result<Vec<ProposedNode>, Error> = Err(Error::Ai("x".to_string()));
    assert!(matches!(after_answer(false, failed), InvestigationStep::Reformat));
    let failed_again: Result<Vec<ProposedNode>, Error> = Err(Error::Ai("y".to_string()));
    match after_answer(true, failed_again) {
        InvestigationStep::Failed(e) => assert_eq!(e, Error::Ai("y".to_string())),
        _ => panic!("expected failure"),
    }
    match after_answer(true, Ok(Vec::new())) {
        InvestigationStep::Done(p) => assert!(p.is_empty()),
        _ => panic!("expected proposals"),
    }
    assert_eq!(
        decode_failure("bad"),
        Error::Ai("Failed to parse proposals: bad".to_string())
    );
}

#[test]
fn answer_without_bracket_has_no_array() {
    assert_eq!(extract_json_array(r#"no brackets {"a": 1}"#), None);
    assert_eq!(extract_json_array(r#"{"nodes": "none"}"#), None);
    assert_eq!(extract_json_array(""), None);
}

#[test]
fn id_chars_are_alphanumeric_dash_underscore() {
    for c in ['a', 'Z', '0', '9', '-', '_', 'é', '٣'] {
        assert!(is_id_char_exec(c), "{}", c);
    }
    for c in [' ', '.', '/', '?', '=', '&', '#'] {
        assert!(!is_id_char_exec(c), "{}", c);
    }
}
