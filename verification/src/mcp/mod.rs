//! What the server for agents answers: prompts, resources and tool results.

pub mod prompts;
pub mod resources;
pub mod tools;
