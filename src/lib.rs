//! Password strength analysis and password hashing.
//!
//! `analysis` derives a fingerprint of a password, `policy` scores it and
//! decides compliance, and `hashing` wraps Argon2 and SHA-1.

pub mod analysis;
pub mod policy;
pub mod hashing;
