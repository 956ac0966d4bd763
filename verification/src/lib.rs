//! Address lookup for iroh that publishes to the BitTorrent mainline DHT under a
//! *blinded* key instead of the endpoint's public key.
//!
//! The published record is a postcard-encoded blob (no DNS packet, no pkarr),
//! sealed with a key derived from the master public key and padded to a fixed
//! size, stored as a BEP44 mutable item. DHT nodes verify the item's ed25519
//! signature against the blinded key like any other; they never see the
//! endpoint id. Resolvers that know an endpoint id derive the same blinded key
//! and payload key; DHT crawlers see only unlinkable pseudonyms holding opaque,
//! uniformly sized blobs.
//!
//! This crate holds all of that but the network: what to publish, under which
//! key to look, and what an answer means.

pub mod blinding;
pub mod bytes;
pub mod curve;
pub mod encryption;
pub mod endpoint;
pub mod error;
pub mod hashing;
pub mod keys;
pub mod lookup;
pub mod publisher;
pub mod resolve;
pub mod signable;
pub mod wire;

pub use crate::error::LookupError;
pub use crate::lookup::{
    BlindedLookup, Builder, DEFAULT_CONTEXT, DEFAULT_REPUBLISH_SECS, PROVENANCE,
};
