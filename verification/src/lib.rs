//! Avatar resolution and synchronization engine.
//!
//! Maps a 32-hex identity fingerprint and a rating ceiling to a cached
//! image artifact, refreshing stale entries from a remote provider and
//! deduplicating stored content by digest.

pub mod clock;
pub mod digest;
pub mod identity;
pub mod laws;
pub mod rating;
pub mod resolver;
pub mod storage;
pub mod store;
pub mod strutil;
pub mod sync;
pub mod transcode;

pub use identity::is_hex_string;
pub use rating::get_rating;
pub use rating::get_rating_from_value;
