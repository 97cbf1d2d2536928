pub mod existing_nodes;
pub mod tavily;
pub mod youtube_details;
pub mod youtube_search;
