//! The agent's tool that looks up one YouTube video.
use vstd::prelude::*;

verus! {

/// The tool's name.
pub const NAME: &'static str = "youtube_details";

/// What the tool tells the agent it does.
pub const DESCRIPTION: &'static str = "Get full details for a YouTube video including description, view count, and duration. Use this to judge video quality after searching.";

/// The video lookup tool, with its API key.
#[derive(Debug)]
pub struct YoutubeDetailsTool {
    pub api_key: String,
}

impl YoutubeDetailsTool {
    /// The tool using `api_key`.
    pub fn new(api_key: String) -> (r: YoutubeDetailsTool)
        ensures
            r.api_key == api_key,
    {
        YoutubeDetailsTool { api_key }
    }
}

/// Which video to look up.
#[derive(Debug, Clone)]
pub struct YoutubeDetailsArgs {
    pub video_id: String,
}

/// The details of a video.
#[derive(Debug, Clone)]
pub struct YoutubeDetailsResult {
    pub title: String,
    pub channel: String,
    pub description: String,
    pub view_count: String,
    pub duration: String,
    pub default_audio_language: Option<String>,
}

/// One video as the video API lists it.
#[derive(Debug, Clone)]
pub struct VideoItem {
    pub title: String,
    pub channel_title: String,
    pub description: String,
    pub default_audio_language: Option<String>,
    pub duration: String,
    pub view_count: Option<String>,
}

/// The details of the first listed video (its view count empty when the API gives none), or
/// nothing when no video is listed.
pub fn details_of(items: Vec<VideoItem>) -> (r: Option<YoutubeDetailsResult>)
    ensures
        if items@.len() == 0 {
            r is None
        } else {
            r matches Some(d) && {
            let item = items@[0];
            &&& d.title == item.title
            &&& d.channel == item.channel_title
            &&& d.description == item.description
            &&& d.duration == item.duration
            &&& d.default_audio_language == item.default_audio_language
            &&& d.view_count@ == (match item.view_count {
                Some(v) => v@,
                None => Seq::<char>::empty(),
            })
            }
        },
{
    let mut items = items;
    if items.len() == 0 {
        return None;
    }
    let item = items.remove(0);
    let view_count = match item.view_count {
        Some(v) => v,
        None => String::new(),
    };
    Some(
        YoutubeDetailsResult {
            title: item.title,
            channel: item.channel_title,
            description: item.description,
            view_count,
            duration: item.duration,
            default_audio_language: item.default_audio_language,
        },
    )
}

} // verus!
