//! The agent's YouTube search tool.
use vstd::prelude::*;

verus! {

/// The tool's name.
pub const NAME: &'static str = "youtube_search";

/// What the tool tells the agent it does.
pub const DESCRIPTION: &'static str = "Search YouTube for educational videos. Returns video IDs, titles, channels, and description snippets.";

/// The video search tool, with its API key.
#[derive(Debug)]
pub struct YoutubeSearchTool {
    pub api_key: String,
}

impl YoutubeSearchTool {
    /// The tool using `api_key`.
    pub fn new(api_key: String) -> (r: YoutubeSearchTool)
        ensures
            r.api_key == api_key,
    {
        YoutubeSearchTool { api_key }
    }
}

/// What to search for.
#[derive(Debug, Clone)]
pub struct YoutubeSearchArgs {
    pub query: String,
}

/// The videos found.
#[derive(Debug, Clone)]
pub struct YoutubeSearchResult {
    pub videos: Vec<YoutubeVideo>,
}

/// One video found.
#[derive(Debug, Clone)]
pub struct YoutubeVideo {
    pub video_id: String,
    pub title: String,
    pub channel: String,
    pub description_snippet: String,
}

/// One hit as the search API lists it; channels and playlists have no video id.
#[derive(Debug, Clone)]
pub struct SearchItem {
    pub video_id: Option<String>,
    pub title: String,
    pub channel_title: String,
    pub description: String,
}

/// The video a hit stands for, if it is a video.
pub open spec fn video_of(item: SearchItem) -> Option<YoutubeVideo> {
    match item.video_id {
        Some(id) => Some(
            YoutubeVideo {
                video_id: id,
                title: item.title,
                channel: item.channel_title,
                description_snippet: item.description,
            },
        ),
        None => None,
    }
}

/// The videos among the hits, in order.
pub open spec fn videos_among(items: Seq<SearchItem>) -> Seq<YoutubeVideo>
    decreases items.len(),
{
    if items.len() == 0 {
        Seq::empty()
    } else {
        match video_of(items.last()) {
            Some(v) => videos_among(items.drop_last()).push(v),
            None => videos_among(items.drop_last()),
        }
    }
}

/// The search result: the hits that are videos, in the order found.
pub fn search_result(items: Vec<SearchItem>) -> (r: YoutubeSearchResult)
    ensures
        r.videos@ == videos_among(items@),
{
    let ghost all = items@;
    let mut items = items;
    let mut rev: Vec<YoutubeVideo> = Vec::new();
    // Take the hits from the back; `rev` gathers their videos last first.
    while items.len() > 0
        invariant
            videos_among(all) == videos_among(items@) + rev@.reverse(),
            items@ == all.take(items@.len() as int),
            items@.len() <= all.len(),
        decreases items.len(),
    {
        let ghost before = items@;
        let ghost rb = rev@;
        let item = items.pop().unwrap();
        assert(items@ =~= before.drop_last());
        assert(all.take(items@.len() as int) =~= before.drop_last());
        match item.video_id {
            Some(id) => {
                let v = YoutubeVideo {
                    video_id: id,
                    title: item.title,
                    channel: item.channel_title,
                    description_snippet: item.description,
                };
                let ghost vv = v;
                rev.push(v);
                assert(rev@.reverse() =~= seq![vv] + rb.reverse());
                assert(videos_among(before) == videos_among(before.drop_last()).push(vv));
            },
            None => {
                assert(videos_among(before) == videos_among(before.drop_last()));
            },
        }
    }
    let mut videos: Vec<YoutubeVideo> = Vec::new();
    assert(videos_among(items@) =~= Seq::<YoutubeVideo>::empty());
    while rev.len() > 0
        invariant
            videos_among(all) == videos@ + rev@.reverse(),
        decreases rev.len(),
    {
        let ghost rb = rev@;
        let v = rev.pop().unwrap();
        let ghost vv = v;
        videos.push(v);
        assert(rb.reverse() =~= seq![vv] + rev@.reverse());
    }
    assert(rev@.reverse() =~= Seq::<YoutubeVideo>::empty());
    YoutubeSearchResult { videos }
}

} // verus!
