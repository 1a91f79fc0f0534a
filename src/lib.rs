//! Prompt construction and completion parsing for a client that asks a
//! text-generation endpoint to analyse the text of a web page.
//!
//! - `text`: trimming, prefixes, substring search and line splitting.
//! - `prompt`: the request templates, with content cut per operation.
//! - `parse`: reading completions into analyses, topic lists and labels.
//! - `wire`: the request and response envelopes.
//! - `runner`: the client configuration and the reading of a reply.
pub mod parse;
pub mod prompt;
pub mod runner;
pub mod text;
pub mod wire;
