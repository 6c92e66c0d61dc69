//! Synchronization core of a personal file-sync system: path canonicalization,
//! content identity, the local index, the initial and live reconcilers, the
//! token-refresh policy of the remote client and the server's upload engine.
//!
//! Everything here is plain computation on values; reading the disk, talking
//! to the network and persisting rows is left to the caller.

pub mod text;
pub mod paths;
pub mod time;
pub mod hashing;
pub mod models;
pub mod errors;
pub mod index;
pub mod intent;
pub mod sync;
pub mod watch;
pub mod tokens;
pub mod remote;
pub mod keyed;
pub mod upload;
pub mod api;
pub mod auth;
pub mod server;
