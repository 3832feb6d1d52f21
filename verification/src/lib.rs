//! Request-authentication and wire-protocol core for a terminal client of a
//! cloud provider's control-plane APIs.
//!
//! The crate turns "call operation X on service Y with parameters Z" into a
//! correctly signed HTTP request description, and turns the provider's
//! response encodings back into one canonical in-memory value. It holds:
//! a credential-resolution chain, a deterministic keyed-HMAC request signer,
//! builders for the four wire dialects, an endpoint resolver, and an
//! XML-to-generic-value normalizer. The surrounding program performs the
//! actual network and file I/O and hands the results back as plain values.

pub mod canonical;
pub mod credentials;
pub mod digest;
pub mod display;
pub mod endpoint;
pub mod imds;
pub mod ini;
pub mod request;
pub mod session;
pub mod sign;
pub mod textutil;
pub mod timefmt;
pub mod xml;
