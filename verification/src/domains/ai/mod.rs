pub mod agent;
pub mod ask;
pub mod prompts;
pub mod proposer;
pub mod refresh;
pub mod starting_points;
pub mod tools;
