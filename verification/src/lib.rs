//! An in-memory administrative ledger for an educational platform.
//!
//! The library tracks student profiles, a course catalog, pending course
//! requests, enrollment records with pass/fail outcomes, governance
//! proposals, moderation lists and a token configuration. Every operation
//! is a verified state transition on the [`platform::Platform`] store;
//! the caller's identity and the current time are supplied by the host
//! environment as plain values.

pub mod identity;
pub mod laws;
pub mod model;
pub mod platform;
pub mod types;

pub use identity::Identity;
