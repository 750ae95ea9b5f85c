//! A network identity verification and certificate-pinning engine, with the
//! pure logic of the surrounding command-runner utility.
//!
//! Before a client trusts a remote HTTPS endpoint identified only by hostname,
//! the engine decides — without relying solely on the platform DNS and the
//! global certificate-authority trust store — whether it is actually talking
//! to the intended service.  It combines a multi-source DNS consensus check,
//! TLS chain validation plus application-level certificate/public-key pinning,
//! and an operator-approved trust-on-first-use fallback that persists newly
//! accepted fingerprints.
//!
//! The library holds the decision logic: fingerprint computation, pin
//! normalisation and matching, pin-store loading from file contents, the
//! trust-decision rules, and the pure text handling of the surrounding tool.
//! All I/O (network, filesystem, console) stays with the caller, which hands
//! the library plain values and performs the actions it decides on.

pub mod access;
pub mod config;
pub mod dns;
pub mod errors;
pub mod executor;
pub mod fingerprint;
pub mod json;
pub mod logger;
pub mod model;
pub mod notion;
pub mod parser;
pub mod pins;
pub mod store;
pub mod text;
pub mod util;
pub mod verify;
