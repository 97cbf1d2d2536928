//! The agent's web search tool.
use vstd::prelude::*;

verus! {

/// The tool's name.
pub const NAME: &'static str = "tavily_search";

/// What the tool tells the agent it does.
pub const DESCRIPTION: &'static str = "Search the web for articles, guides, tutorials, and learning resources. Returns titles, URLs, and content snippets.";

/// The web search tool, with its API key.
#[derive(Debug)]
pub struct TavilySearchTool {
    pub api_key: String,
}

impl TavilySearchTool {
    /// The tool using `api_key`.
    pub fn new(api_key: String) -> (r: TavilySearchTool)
        ensures
            r.api_key == api_key,
    {
        TavilySearchTool { api_key }
    }
}

/// What to search for.
#[derive(Debug, Clone)]
pub struct TavilySearchArgs {
    pub query: String,
}

/// The pages found.
#[derive(Debug, Clone)]
pub struct TavilySearchResult {
    pub results: Vec<TavilyResult>,
}

/// One page found: its title, address and a snippet of its content.
#[derive(Debug, Clone)]
pub struct TavilyResult {
    pub title: String,
    pub url: String,
    pub content: String,
}

} // verus!
