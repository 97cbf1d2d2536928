pub mod generate_curriculum;
pub mod models;
pub mod workflow;
