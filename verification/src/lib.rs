//! A minimal hierarchical key-value store with a shard-router core.
//!
//! The library holds the verified logic of the system: the in-memory
//! `KeyStore` with existence-sensitive create/read/update/delete, the
//! immutable `RouteTable` with longest dot-segment-prefix resolution,
//! and the forwarding/response-translation rules of the shard router.
//! Transport (HTTP, sockets, JSON parsing) lives outside the library
//! and hands it plain values.
//!
//! Keys, backend addresses and texts are byte strings throughout. The dot
//! that separates key segments is a single byte in UTF-8, so dot-segment
//! reasoning carries over to any key unchanged, and values round-trip
//! byte for byte.

pub mod api;
pub mod assoc;
pub mod client_core;
pub mod encode;
pub mod messages;
pub mod proxy;
pub mod routes;
pub mod store;
pub mod value;
