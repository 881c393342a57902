//! An engine backed by data held in memory instead of a cluster.
//!
//! Reading works for real — topics, searching, aggregating, fetching a message. Changing
//! things mostly does not: mutations report success without altering the data, except
//! for the registry list and the choice of which fields are split into words.

pub mod bucket_laws;
pub mod buckets;
pub mod data;
pub mod engine;
pub mod export_api;
pub mod fixture;
pub mod matching;
pub mod other_apis;
pub mod search_all;
pub mod search_api;
pub mod store;
pub mod timefmt;
pub mod topic_meta_api;
