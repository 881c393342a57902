//! Resource ceilings.
//!
//! These are structural limits rather than settings: a caller may ask for less, but
//! nothing can raise them. They are enforced by the engine — a check in a user interface
//! is a convenience, not a guarantee.

use vstd::prelude::*;

verus! {

/// How many cluster connection profiles can be stored. Saving past this is rejected;
/// nothing is evicted to make room. Equal to the default of `cluster_profile_cap_b`.
pub const CLUSTER_PROFILE_CAP: usize = 2;

/// How many topics one workspace can keep indexed and in sync at the same time. Equal to
/// the default of `indexed_topic_cap_b`.
pub const INDEXED_TOPIC_CAP: usize = 5;

/// Upper bound on how many messages one topic keeps in the index.
///
/// Search and browse return at most this many, so indexing past it buys disk usage rather
/// than reach.
pub const TOPIC_INDEX_COUNT_CAP: u64 = 5_000_000;

/// Ceiling on how many fields of one topic can be word-tokenized. Equal to the default of
/// `tokenize_field_cap_b`.
pub const TOKENIZE_FIELD_CAP: usize = 1;

/// Prefix marking an error as "a plan limit was reached". Branch on this token, never on
/// the wording after it.
pub const PLAN_LIMIT_MSG: &'static str = "plan limit:";

/// Prefix marking "the broker listed its topics and this one was not among them". It must
/// stay distinguishable from a failure to reach the cluster at all.
pub const TOPIC_NOT_FOUND_MSG: &'static str = "topic not found:";

/// The broker did not answer in time.
pub const KAFKA_CONNECT_TIMEOUT_MSG: &'static str = "kafka connect timeout:";

/// SASL authentication was refused.
pub const KAFKA_AUTH_FAILED_MSG: &'static str = "kafka auth failed:";

/// The broker does not support the SASL mechanism that was chosen.
pub const KAFKA_SASL_MECHANISM_MSG: &'static str = "kafka sasl mechanism rejected:";

/// The TLS handshake or certificate check failed.
pub const KAFKA_TLS_FAILED_MSG: &'static str = "kafka tls failed:";

/// Connection failed for a reason none of the above covers.
pub const KAFKA_CONNECT_FAILED_MSG: &'static str = "kafka connect failed:";

/// AWS MSK IAM refused the request. The cause is deliberately not narrowed.
pub const MSK_ACCESS_DENIED_MSG: &'static str = "msk access denied:";

} // verus!
