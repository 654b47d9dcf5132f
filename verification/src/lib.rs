//! The text-facing core of a small browser engine: an HTML tokenizer, a URL
//! splitter and an HTTP response parser.

pub mod error;
pub mod http;
pub mod renderer;
pub mod text;
pub mod url;
