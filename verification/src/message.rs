//! A Kafka message, as indexing and searching both see it.

use std::collections::BTreeMap;

use vstd::prelude::*;

verus! {

#[derive(Debug, Clone)]
pub struct KafkaMessage {
    pub topic: String,
    pub partition: i32,
    pub offset: i64,
    pub timestamp: String,
    pub key: String,
    pub payload: String,
    pub headers: BTreeMap<String, String>,
}

} // verus!
