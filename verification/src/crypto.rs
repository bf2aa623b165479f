//! Hashing and signature checks.

pub mod hashing;
pub mod signature;
