//! A local-first message bus.

pub mod answers;
pub mod client;
pub mod clock;
pub mod copying;
pub mod effects;
pub mod engine;
pub mod error;
pub mod failures;
pub mod ids;
pub mod keys;
pub mod laws;
pub mod layout;
pub mod memory;
pub mod message;
pub mod queues;
pub mod rounds;
pub mod rows;
pub mod service;
pub mod sqlite;
pub mod status;
pub mod store;
pub mod subscribe;
pub mod sync;
pub mod table;
pub mod terms;
pub mod text;
pub mod wire;
