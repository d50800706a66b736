//! Content digests of fetched documents, named as CIDv1 identifiers
//! (raw codec, SHA2-256 multihash) in base-64 multibase text.
pub mod encoder;
pub mod layout;
pub mod service;
