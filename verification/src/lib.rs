//! A line-oriented text-buffer and viewport engine for a terminal editor.
//!
//! The buffer stores a document as sentinel-terminated lines of characters,
//! tracks a cursor over it, applies local edits (insert, delete, split,
//! join), scrolls a viewport so the cursor stays inside a caller-supplied
//! frame, and paints the visible slice into a character grid.

pub mod buffer;
pub mod codec;
pub mod frame;
pub mod laws;
pub mod model;

pub use buffer::Buffer;
pub use frame::Frame;
