pub mod api;
pub mod config;
pub mod curriculum;
pub mod domains;
pub mod error;
pub mod file_config;
pub mod ids;
pub mod openai;
pub mod prompt_registry;
pub mod text;
pub mod types;
pub mod web;
