//! A personal journaling library: an editable gap-buffer text store, a
//! versioned document model (append-only revision history per entry), and a
//! plain-text serialization format with a verified round-trip guarantee.

mod ext;
pub mod app;
pub mod codec;
pub mod config;
pub mod elphy;
pub mod commit;
pub mod gapbuffer;
pub mod strutil;
pub mod timestamp;
pub mod util;
pub mod word;
