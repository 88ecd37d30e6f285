/// Short deterministic keys for (namespace, URL) pairs.
pub mod key;
/// Laws that hold across shares, lookups and renderings.
pub mod laws;
/// Validation and canonical form of submitted URLs.
pub mod normalize;
/// JSON, HTML and RSS renderings of an entry.
pub mod render;
/// The share and show services.
pub mod share;
/// The namespace store: entries keyed by namespace and key.
pub mod store;
/// Text building and escaping.
pub mod text;
/// Calendar dates and timestamp texts.
pub mod time;
