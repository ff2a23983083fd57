//! Runtime core of a tool-augmented conversational agent: identity files,
//! tool libraries, command templating, the bounded conversation loop and
//! per-channel session histories.

pub mod agent;
pub mod api;
pub mod engine;
pub mod history;
pub mod session;
pub mod text;
pub mod tools;
