//! Verified core of the entropy engine: packet framing, health tests,
//! security policy check, whitening, pool, DRBG and output formatting.

pub mod text;
pub mod health;
pub mod models;
pub mod security;
pub mod errors;
pub mod parser;
pub mod primitives;
pub mod whitening;
pub mod pool;
pub mod drbg;
pub mod crypto;
pub mod api;
pub mod clock;
pub mod otp;
pub mod blockchain;
pub mod serial;
pub mod mqtt;
pub mod otp_mqtt;
pub mod server;
pub mod quality;
