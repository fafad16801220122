pub mod error;
pub mod registry;
pub mod dispatcher;
pub mod shard;
pub mod submission;
pub mod laws;
