//! A caching gateway in front of a media-metadata query service: the
//! normalisation of upstream documents, the cache expiry policy, and the
//! decisions of the two lookups, stated and proved over plain values.

pub mod cache;
pub mod gateway;
pub mod json;
pub mod lookup;
pub mod text;
pub mod wash;
