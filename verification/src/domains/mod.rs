pub mod ai;
pub mod auth;
pub mod graph;
