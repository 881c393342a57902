//! A searchable index over Kafka topics: the types a caller and an engine exchange, the
//! rules that bound its settings, and an engine that answers from data held in memory.

pub mod text;
pub mod order;
pub mod limits;
pub mod settings;
pub mod auth;
pub mod cluster;
pub mod config;
pub mod consistency;
pub mod decode_failure;
pub mod deserializer;
pub mod domain;
pub mod engine;
pub mod error;
pub mod events;
pub mod export;
pub mod full_resync;
pub mod indexing;
pub mod message;
pub mod profile;
pub mod progress;
pub mod registry;
pub mod schema;
pub mod search;
pub mod topic_meta;
pub mod workspace;
pub mod mock;
