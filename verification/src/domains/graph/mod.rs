pub mod assembler;
pub mod models;
pub mod queries;
pub mod weights;
pub mod traversal;
pub mod dedup;
pub mod entry;
pub mod client;
