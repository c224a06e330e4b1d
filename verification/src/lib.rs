//! Conversation, prompt and retrieval logic of the lala assistant, verified with Verus.
pub mod api;
pub mod chat;
pub mod chunker;
pub mod context;
pub mod model;
pub mod planner;
pub mod repl;
pub mod text;
