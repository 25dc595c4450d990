//! Preparation of a forum's thread listing: threads are ordered newest first,
//! long titles and bodies are shortened by character count, and timestamps
//! are rendered as text before the page is handed to a template.

pub mod text;
pub mod order;
pub mod listing;
