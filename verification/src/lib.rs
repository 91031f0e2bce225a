//! A participant node of a proof-of-work mining pool: the partitioned hash
//! search and the rules of the pool protocol.

pub mod codec;
pub mod coordinator;
pub mod mine;
pub mod mining_history;
pub mod partition;
pub mod platform;
pub mod pool;
pub mod pool_client;
pub mod search;
pub mod utils;
pub mod validation;
pub mod wire;
