use learning_core::domains::ai::tools::existing_nodes::{
    edge_of_entries, edges_of_maps, existing_nodes_result, node_of_row, ExistingEdge,
};
use learning_core::domains::ai::tools::tavily::TavilySearchTool;
use learning_core::domains::ai::tools::youtube_details::{details_of, VideoItem, YoutubeDetailsTool};
use learning_core::domains::ai::tools::youtube_search::{search_result, SearchItem, YoutubeSearchTool};

fn map(pairs: &[(&str, &str)]) -> Vec<(String, String)> {
    pairs.iter().map(|(k, v)| (k.to_string(), v.to_string())).collect()
}

#[test]
fn tools_keep_their_keys() {
    assert_eq!(TavilySearchTool::new("k1".into()).api_key, "k1");
    assert_eq!(YoutubeDetailsTool::new("k2".into()).api_key, "k2");
    assert_eq!(YoutubeSearchTool::new("k3".into()).api_key, "k3");
}

#[test]
fn collected_edges_skip_empty_maps() {
    assert!(edge_of_entries(&Vec::new()).is_none());
    let e = edge_of_entries(&map(&[("movement", "DEEPER")])).unwrap();
    assert_eq!((e.target_title.as_str(), e.movement.as_str()), ("", "DEEPER"));
    let edges = edges_of_maps(&vec![
        map(&[("target_title", "A"), ("movement", "BROADER")]),
        Vec::new(),
        map(&[("target_title", "B")]),
    ]);
    assert_eq!(edges.len(), 2);
    assert_eq!(edges[0].target_title, "A");
    assert_eq!(edges[1].movement, "");
}

#[test]
fn listing_summary_counts_nodes_and_edges() {
    let edge = |t: &str| ExistingEdge { target_title: t.into(), movement: "DEEPER".into() };
    let mut a = node_of_row(Some("1".into()), Some("A".into()), None, None, &Vec::new());
    assert_eq!((a.description.as_str(), a.depth), ("", 0));
    a.outgoing = vec![edge("B"), edge("C")];
    let mut b = node_of_row(Some("2".into()), Some("B".into()), Some("d".into()), Some(3), &Vec::new());
    b.outgoing = vec![edge("C")];
    let c = node_of_row(None, None, None, Some(1), &vec![Vec::new()]);
    assert_eq!(c.outgoing.len(), 0);
    let r = existing_nodes_result(vec![a, b, c]);
    assert_eq!(r.summary, "Graph has 3 nodes across 3 edges.");
    assert_eq!(r.nodes.len(), 3);
    assert_eq!(existing_nodes_result(Vec::new()).summary, "Graph has 0 nodes across 0 edges.");
}

#[test]
fn video_details_of_first_item() {
    assert!(details_of(Vec::new()).is_none());
    let item = |t: &str, views: Option<&str>| VideoItem {
        title: t.into(),
        channel_title: "ch".into(),
        description: "desc".into(),
        default_audio_language: Some("en".into()),
        duration: "PT3M".into(),
        view_count: views.map(|v| v.to_string()),
    };
    let d = details_of(vec![item("first", None), item("second", Some("5"))]).unwrap();
    assert_eq!(d.title, "first");
    assert_eq!(d.view_count, "");
    assert_eq!(d.channel, "ch");
    assert_eq!(d.default_audio_language, Some("en".to_string()));
    assert_eq!(details_of(vec![item("x", Some("42"))]).unwrap().view_count, "42");
}

#[test]
fn search_keeps_only_videos_in_order() {
    let hit = |id: Option<&str>, t: &str| SearchItem {
        video_id: id.map(|s| s.to_string()),
        title: t.into(),
        channel_title: "ch".into(),
        description: "d".into(),
    };
    let r = search_result(vec![hit(Some("a"), "A"), hit(None, "channel"), hit(Some("b"), "B")]);
    let ids: Vec<&str> = r.videos.iter().map(|v| v.video_id.as_str()).collect();
    assert_eq!(ids, vec!["a", "b"]);
    assert_eq!(r.videos[1].title, "B");
    assert!(search_result(Vec::new()).videos.is_empty());
}
