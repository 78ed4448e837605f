//! Escapes Markdown-like text for a chat platform's restrictive Markdown
//! dialect: the input is parsed into a stream of structural events, literal
//! text and code content are re-escaped according to their context, and the
//! stream is serialized back into the dialect's concrete syntax.

pub mod charset;
pub mod coalesce;
pub mod events;
pub mod pipeline;
pub mod stream;

pub use charset::escape_payload;
pub use coalesce::coalesce_events;
pub use pipeline::tg_escape;
pub use stream::escape_events;
