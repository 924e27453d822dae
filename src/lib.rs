//! Ingestion and synchronization core of a personal media-sync server.
//!
//! Uploaded files are deduplicated by content hash, placed on disk by user and
//! month, recorded in a metadata store, and announced to every connected client.
//! A short pairing-code handshake lets a new client obtain a session token.
pub mod config;
pub mod digest;
pub mod events;
pub mod hub;
pub mod ids;
pub mod ingest;
pub mod paths;
pub mod session;
pub mod store;
pub mod text;
pub mod thumbs;
