//! A workout log: timestamp-keyed workout records, an ordered in-memory
//! store with exact CRUD semantics, and the request router that maps HTTP
//! verbs and paths onto store operations and reply envelopes.

pub mod text;
pub mod difficulty;
pub mod timestamp;
pub mod workout;
pub mod store;
pub mod query;
pub mod routing;
