//! Markdown rendering helpers for a documentation book: anchor identifiers,
//! curly quotes, link rewriting and the event pipeline around the parser.

pub mod text;
pub mod anchor;
pub mod event;
pub mod quotes;
pub mod links;
pub mod render;
pub mod collapse;
pub mod backtrace;
