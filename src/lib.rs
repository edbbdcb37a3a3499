//! A signaling broker that pairs two peers through a short spoken passphrase
//! and relays their connection handshake.
pub mod passphrase;
pub mod store;
pub mod message;
pub mod router;
pub mod laws;
pub mod wordlist;
