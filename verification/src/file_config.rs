//! Settings read from the configuration file.
use vstd::prelude::*;

verus! {

/// The whole configuration file.
#[derive(Debug, Clone)]
pub struct FileConfig {
    pub server: ServerConfig,
    pub ai: AiConfig,
    pub curriculum: CurriculumConfig,
    pub prompts: PromptsConfig,
}

/// Where the service listens.
#[derive(Debug, Clone)]
pub struct ServerConfig {
    pub host: String,
    pub port: u16,
    pub restate_port: u16,
}

/// Which model writes curricula, and how long its answers may be.
#[derive(Debug, Clone)]
pub struct AiConfig {
    pub provider: String,
    pub model: String,
    pub max_tokens: u32,
}

/// The shape of generated curricula.
#[derive(Debug, Clone)]
pub struct CurriculumConfig {
    pub default_chapter_count: u32,
    pub max_depth: u32,
    pub prefetch_depth: u32,
}

/// Where the prompt templates are.
#[derive(Debug, Clone)]
pub struct PromptsConfig {
    pub dir: String,
}

} // verus!
