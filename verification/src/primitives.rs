//! The value types that travel through the chain, and the pool that stages them.

pub mod block;
pub mod digest_map;
pub mod pool;
pub mod transaction;
