//! Verified core of the Failsafe cross-device sync system: the wire formats
//! spoken between peers, and the rules the registration server applies.

pub mod bytes;
pub mod handshake;
pub mod text;
pub mod ids;
pub mod error;
pub mod codec;
pub mod pairing;
pub mod clock;
pub mod rate_limit;
pub mod virtual_ip;
pub mod secrets;
pub mod totp;
pub mod auth;
pub mod presence;
pub mod devices;
pub mod accounts;
pub mod network;
pub mod router;
pub mod keyed;
pub mod blobs;
pub mod blob_store;
pub mod shell_host;
pub mod config;
pub mod peers;
pub mod pool;
