//! The core of a terminal chat client for source repositories: the cache of
//! repository context, the rendering of replies written in Markdown, the
//! conversation state and the rules by which keys and replies change it.

pub mod app;
pub mod gemini;
pub mod git;
pub mod markdown;
pub mod message_block;
pub mod models;
pub mod text;
pub mod ui;
