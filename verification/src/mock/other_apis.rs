//! The rest of the interface. Authentication always succeeds, since there is nothing to
//! authenticate against; consistency always holds, since nothing can drift; settings are
//! the defaults; and changes are accepted without altering the fixture — except the
//! registry list and which fields are split into words.

use vstd::prelude::*;

use crate::auth::{AwsPaths, AwsProfileCredentials, AwsProfileSummary, KafkaAuth, StoredAuthConfig, UnreachableBrokerInfo};
use crate::config::{GlobalConfigInput, GlobalConfigView, TopicMetaConfigInput};
use crate::consistency::ConsistencyReport;
use crate::decode_failure::{DecodeFailureKind, DecodeFailureMode};
use crate::engine::{
    AuthApi, ConfigApi, ConsistencyApi, FieldMgmtApi, IlmApi, IndexingApi, ProfilesApi, RegistryApi,
    StorageApi,
};
use crate::error::EngineError;
use crate::full_resync::FullResyncTrigger;
use crate::indexing::{CompactDeletedKeyCursor, CompactDeletedKeysPage, CompactKeyHistory, OpenKafkaTopicResponse};
use crate::limits::TOPIC_INDEX_COUNT_CAP;
use crate::mock::engine::MockEngine;
use crate::mock::store::{by_name, delete_spec, named, save_spec, tokenized_after, topic_index};
use crate::order::stable_sort;
use crate::order::lemma_first_index_props;
use crate::profile::ClusterProfile;
use crate::registry::{RegistryResource, RegistrySchemaIndexEntry, RegistrySchemaView, RegistryTestResult};
use crate::settings::{
    disk_limit_bytes, resolved_view, spec_default_plan, spec_disk_limit_bytes,
    EffectiveLimitsView, PlanLimits, ProfileLimits, SystemLimitsView,
};
use crate::text::{clone_strings, owned, views};
use crate::topic_meta::{IndexedFieldInput, TopicDeserializers};

verus! {

/// The refusal of more word-split fields than the plan allows. It begins with the plan
/// limit marker a caller branches on.
pub open spec fn tokenize_cap_error(e: EngineError) -> bool {
    e matches EngineError::InvalidArgument(m) && m@
        == "plan limit: more fields to split into words than the plan allows"@
}

fn tokenize_cap() -> (e: EngineError)
    ensures
        tokenize_cap_error(e),
{
    EngineError::InvalidArgument(owned("plan limit: more fields to split into words than the plan allows"))
}

// ── Authentication ──────────────────────────────────────────────────────────

impl AuthApi for MockEngine {
    fn register_kafka_auth(&self, bootstrap: &str, auth: KafkaAuth) -> (r: Result<(), EngineError>)
        ensures
            r is Ok,
    {
        Ok(())
    }

    fn clear_kafka_auth(&self, bootstrap: &str) -> (r: Result<(), EngineError>)
        ensures
            r is Ok,
    {
        Ok(())
    }

    fn verify_kafka_auth(&self, bootstrap: &str) -> (r: Result<(), EngineError>)
        ensures
            r is Ok,
    {
        Ok(())
    }

    /// No TLS connection is ever opened, so there is never a certificate to distrust.
    fn confirm_kafka_cert_trust(&self, bootstrap: &str, accepted_fingerprints: Vec<String>) -> (r:
        Result<(), EngineError>)
        ensures
            r is Ok,
    {
        Ok(())
    }

    /// No broker is ever contacted, so none is ever unreachable.
    fn verify_cluster_broker_trust(&self, bootstrap: &str) -> (r: Result<
        Vec<UnreachableBrokerInfo>,
        EngineError,
    >)
        ensures
            r matches Ok(v) && v@.len() == 0,
    {
        Ok(Vec::new())
    }

    fn list_sasl_mechanisms(&self, bootstrap: &str, auth: KafkaAuth) -> (r: Result<
        Vec<String>,
        EngineError,
    >)
        ensures
            r matches Ok(v) && views(v@) == seq!["PLAIN"@, "SCRAM-SHA-256"@, "SCRAM-SHA-512"@],
    {
        let v = vec![owned("PLAIN"), owned("SCRAM-SHA-256"), owned("SCRAM-SHA-512")];
        assert(views(v@) =~= seq!["PLAIN"@, "SCRAM-SHA-256"@, "SCRAM-SHA-512"@]);
        Ok(v)
    }

    /// Reads none of the user's credential files: the empty list leaves the caller to ask
    /// for them directly.
    fn list_aws_profiles(&self, path: Option<String>) -> (r: Result<Vec<AwsProfileSummary>, EngineError>)
        ensures
            r matches Ok(v) && v@.len() == 0,
    {
        Ok(Vec::new())
    }

    /// Empty, for the same reason: no file was looked at, so naming one would be untrue.
    fn resolve_aws_paths(&self) -> (r: AwsPaths)
        ensures
            r.credentials@.len() == 0,
            r.config@.len() == 0,
    {
        AwsPaths::default()
    }

    fn load_aws_profile(&self, path: Option<String>, profile: String) -> (r: Result<
        AwsProfileCredentials,
        EngineError,
    >)
        ensures
            r matches Err(EngineError::InvalidArgument(m)) && m@
                == "This engine does not read AWS credential files — enter the keys directly"@,
    {
        Err(
            EngineError::InvalidArgument(
                owned("This engine does not read AWS credential files — enter the keys directly"),
            ),
        )
    }
}

// ── Settings ────────────────────────────────────────────────────────────────

/// The default global settings this engine reports.
pub open spec fn default_view_ok(v: GlobalConfigView) -> bool {
    &&& v.indexing_batch_size == 1000
    &&& v.auto_sync_slice_size == 50_000
    &&& v.incremental_sync_enabled
    &&& v.retention_cleanup_enabled
    &&& v.retention_cleanup_interval_secs == 60
    &&& !v.size_cleanup_enabled
    &&& v.size_cleanup_interval_secs == 60
    &&& v.max_index_bytes_per_cluster == 0
    &&& views(v.default_cleanup_policies@) == seq!["drop_index"@]
    &&& v.default_keep_count_per_partition == 50_000
    &&& v.topic_index_count_cap == TOPIC_INDEX_COUNT_CAP
    &&& v.retention_cleanup_wait_timeout_secs == 30
    &&& v.size_cleanup_wait_timeout_secs == 30
    &&& v.foreground_acquire_wait_timeout_secs == 30
    &&& v.compression_mode@ == "snappy"@
}

pub fn default_view() -> (v: GlobalConfigView)
    ensures
        default_view_ok(v),
{
    let policies = vec![owned("drop_index")];
    assert(views(policies@) =~= seq!["drop_index"@]);
    GlobalConfigView {
        indexing_batch_size: 1000,
        auto_sync_slice_size: 50_000,
        incremental_sync_enabled: true,
        retention_cleanup_enabled: true,
        retention_cleanup_interval_secs: 60,
        size_cleanup_enabled: false,
        size_cleanup_interval_secs: 60,
        max_index_bytes_per_cluster: 0,
        default_cleanup_policies: policies,
        default_keep_count_per_partition: 50_000,
        topic_index_count_cap: TOPIC_INDEX_COUNT_CAP,
        retention_cleanup_wait_timeout_secs: 30,
        size_cleanup_wait_timeout_secs: 30,
        foreground_acquire_wait_timeout_secs: 30,
        compression_mode: owned("snappy"),
    }
}

impl ConfigApi for MockEngine {
    fn get_global_ilm_config(&self) -> (r: Result<GlobalConfigView, EngineError>)
        ensures
            r matches Ok(v) && default_view_ok(v),
    {
        Ok(default_view())
    }

    /// Resolved the same way a real engine resolves it, from the default disk limit of a
    /// release build.
    fn apply_profile_limits(&self, limits: ProfileLimits) -> (r: Result<EffectiveLimitsView, EngineError>)
        ensures
            r matches Ok(v) && v == resolved_view(spec_disk_limit_bytes().default, limits@, false),
    {
        Ok(EffectiveLimitsView::resolve(disk_limit_bytes().default, &limits, false))
    }

    fn get_effective_limits(&self) -> (r: Result<EffectiveLimitsView, EngineError>)
        ensures
            r matches Ok(v) && v == resolved_view(
                spec_disk_limit_bytes().default,
                Map::<Seq<char>, crate::settings::ProfileConstraint>::empty(),
                false,
            ),
    {
        Ok(EffectiveLimitsView::resolve(disk_limit_bytes().default, &ProfileLimits::new(), false))
    }

    /// No caps of its own: an empty list.
    fn get_system_limits(&self) -> (r: Result<SystemLimitsView, EngineError>)
        ensures
            r matches Ok(v) && v.entries@.len() == 0,
    {
        Ok(SystemLimitsView::empty())
    }

    fn set_global_ilm_config(&self, input: GlobalConfigInput) -> (r: Result<GlobalConfigView, EngineError>)
        ensures
            r matches Ok(v) && default_view_ok(v),
    {
        Ok(default_view())
    }

    fn set_topic_meta_config(&self, workspace: &str, topic: &str, input: TopicMetaConfigInput) -> (r:
        Result<(), EngineError>)
        ensures
            r is Ok,
    {
        Ok(())
    }

    fn set_topic_cleanup_policy(&self, workspace: &str, topic: &str, policy: Option<&str>) -> (r:
        Result<(), EngineError>)
        ensures
            r is Ok,
    {
        Ok(())
    }
}

// ── Consistency ─────────────────────────────────────────────────────────────

impl ConsistencyApi for MockEngine {
    fn verify_topic_consistency(&self, workspace: &str, topic: &str) -> (r: Result<
        ConsistencyReport,
        EngineError,
    >)
        ensures
            r matches Ok(rep) && rep.topic@ == topic@ && rep.overall_ok && rep.index_state@
                == "Empty"@ && rep.checks@.len() == 0,
    {
        Ok(
            ConsistencyReport {
                topic: owned(topic),
                overall_ok: true,
                index_state: owned("Empty"),
                checks: Vec::new(),
            },
        )
    }

    fn detect_topic_drift(&self, workspace: &str, topic: &str, bootstrap: &str) -> (r: Result<
        Vec<FullResyncTrigger>,
        EngineError,
    >)
        ensures
            r matches Ok(v) && v@.len() == 0,
    {
        Ok(Vec::new())
    }
}

// ── Fields ──────────────────────────────────────────────────────────────────

/// The names of the fields marked to be split into words, in order.
pub open spec fn tokenized_inputs(fields: Seq<IndexedFieldInput>) -> Seq<Seq<char>> {
    fields.filter(|f: IndexedFieldInput| f.tokenize).map_values(|f: IndexedFieldInput| f.name@)
}

impl FieldMgmtApi for MockEngine {
    /// The field list decides which fields are split into words.
    fn set_indexed_fields(&mut self, workspace: &str, topic: &str, fields: Vec<IndexedFieldInput>) -> (r:
        Result<(), EngineError>)
        ensures
            r is Ok,
            final(self).held().topic_list() == old(self).held().topic_list(),
            final(self).held().registry_list() == old(self).held().registry_list(),
            forall|t: Seq<char>| #[trigger] final(self).held().tokenized_fields(t) == tokenized_after(
                old(self).held().tokenized_fields(t),
                t,
                topic@,
                tokenized_inputs(fields@),
            ),
    {
        let mut tok: Vec<String> = Vec::new();
        let mut i: usize = 0;
        while i < fields.len()
            invariant
                i <= fields@.len(),
                views(tok@) == tokenized_inputs(fields@.subrange(0, i as int)),
            decreases fields.len() - i,
        {
            proof {
                let w = fields@.subrange(0, i + 1);
                assert(w == fields@.subrange(0, i as int).push(fields@[i as int]));
                fields@.subrange(0, i as int).lemma_filter_push(
                    fields@[i as int],
                    |f: IndexedFieldInput| f.tokenize,
                );
            }
            let ghost before = views(tok@);
            if fields[i].tokenize {
                tok.push(fields[i].name.clone());
                assert(views(tok@) =~= before.push(fields@[i as int].name@));
            }
            assert(views(tok@) =~= tokenized_inputs(fields@.subrange(0, i + 1)));
            i += 1;
        }
        assert(fields@.subrange(0, fields@.len() as int) == fields@);
        self.store_mut().set_tokenized(topic, tok);
        Ok(())
    }

    /// Nothing to rebuild: only a count, so the caller has something to report.
    fn reindex_fields_from_meta(&self, workspace: &str, topic: &str, fields: Vec<String>) -> (r:
        Result<usize, EngineError>)
        ensures
            ({
                let ts = self.held().topic_list();
                let i = topic_index(ts, topic@);
                r == Ok::<usize, EngineError>(
                    if i < ts.len() {
                        ts[i as int].messages@.len() as usize
                    } else {
                        0
                    },
                )
            }),
    {
        proof {
            lemma_first_index_props(self.held().topic_list(), named(topic@));
        }
        match self.store().topic(topic) {
            Some(t) => Ok(t.messages.len()),
            None => Ok(0),
        }
    }

    fn drop_fields_from_index(&self, workspace: &str, topic: &str, fields: Vec<String>) -> (r:
        Result<usize, EngineError>)
        ensures
            r == Ok::<usize, EngineError>(0),
    {
        Ok(0)
    }

    fn remove_topic_from_index(&self, workspace: &str, topic: &str) -> (r: Result<
        (usize, usize),
        EngineError,
    >)
        ensures
            r == Ok::<(usize, usize), EngineError>((0, 0)),
    {
        Ok((0, 0))
    }

    fn ensure_topic_watched(&self, workspace: &str, topic: &str) -> (r: Result<(), EngineError>)
        ensures
            r is Ok,
    {
        Ok(())
    }

    fn set_topic_deserializers(
        &self,
        workspace: &str,
        topic: &str,
        deserializers: Option<TopicDeserializers>,
    ) -> (r: Result<(), EngineError>)
        ensures
            r is Ok,
    {
        Ok(())
    }

    /// Takes effect at once, which is the thing worth showing. The limit is the plan's
    /// cap on word-split fields, as `get_effective_limits` reports it: no profile is held,
    /// so the default plan. Past it the call fails and nothing is stored.
    fn set_tokenize_fields(&mut self, workspace: &str, topic: &str, fields: Vec<String>) -> (r: Result<
        (),
        EngineError,
    >)
        ensures
            fields@.len() > spec_default_plan().tokenize_field_cap ==> {
                &&& r matches Err(e) && tokenize_cap_error(e)
                &&& final(self).held() == old(self).held()
            },
            fields@.len() <= spec_default_plan().tokenize_field_cap ==> {
                &&& r is Ok
                &&& final(self).held().topic_list() == old(self).held().topic_list()
                &&& final(self).held().registry_list() == old(self).held().registry_list()
                &&& forall|t: Seq<char>| #[trigger] final(self).held().tokenized_fields(t)
                    == tokenized_after(
                    old(self).held().tokenized_fields(t),
                    t,
                    topic@,
                    views(fields@),
                )
            },
    {
        let cap = PlanLimits::default().tokenize_field_cap;
        if fields.len() > cap {
            return Err(tokenize_cap());
        }
        self.store_mut().set_tokenized(topic, fields);
        Ok(())
    }

    fn unwatch_topic(&self, workspace: &str, topic: &str) -> (r: Result<(usize, usize), EngineError>)
        ensures
            r == Ok::<(usize, usize), EngineError>((0, 0)),
    {
        Ok((0, 0))
    }

    fn mark_topic_auto_cleaned(&self, workspace: &str, topic: &str, timestamp_ms: i64) -> (r: Result<
        (),
        EngineError,
    >)
        ensures
            r is Ok,
    {
        Ok(())
    }
}

// ── Lifecycle ───────────────────────────────────────────────────────────────

impl IlmApi for MockEngine {
    fn trigger_background_ilm(&self, workspace: &str, bootstrap: &str) -> (r: Result<usize, EngineError>)
        ensures
            r == Ok::<usize, EngineError>(0),
    {
        Ok(0)
    }

    fn trigger_size_based_cleanup(&self, workspace: &str, current_topic: Option<&str>) -> (r: Result<
        (),
        EngineError,
    >)
        ensures
            r is Ok,
    {
        Ok(())
    }

    fn force_topic_cleanup(&self, workspace: &str, topic: &str) -> (r: Result<(), EngineError>)
        ensures
            r is Ok,
    {
        Ok(())
    }

    fn trigger_topic_retention_cleanup(&self, workspace: &str, topic: &str, bootstrap: &str) -> (r:
        Result<bool, EngineError>)
        ensures
            r == Ok::<bool, EngineError>(false),
    {
        Ok(false)
    }
}

// ── Indexing ────────────────────────────────────────────────────────────────

impl IndexingApi for MockEngine {
    /// Reports what is already there rather than pretending to have done work.
    fn open_kafka_topic(
        &self,
        workspace: &str,
        topic: &str,
        bootstrap: &str,
        skip_resync_check: Option<bool>,
        decode_failure_mode: Option<DecodeFailureMode>,
        max_messages: Option<u64>,
    ) -> (r: Result<OpenKafkaTopicResponse, EngineError>)
        ensures
            r matches Ok(o) && {
                let ts = self.held().topic_list();
                let i = topic_index(ts, topic@);
                let count: usize = if i < ts.len() {
                    ts[i as int].messages@.len() as usize
                } else {
                    0
                };
                &&& o.topic@ == topic@
                &&& o.kafka_total_count == count as i64
                &&& o.newly_indexed == count
                &&& (i < ts.len() ==> views(o.key_fields@) == views(ts[i as int].key_fields@)
                    && views(o.payload_fields@) == views(ts[i as int].payload_fields@))
                &&& (i == ts.len() ==> o.key_fields@.len() == 0 && o.payload_fields@.len() == 0)
                &&& o.header_fields@.len() == 0
                &&& o.cleaned_up_i == 0
                &&& o.cleaned_up_m == 0
                &&& o.full_resync_triggers@.len() == 0
                &&& o.decode_failure_context is None
                &&& !o.has_more
            },
    {
        proof {
            lemma_first_index_props(self.held().topic_list(), named(topic@));
        }
        let (count, key_fields, payload_fields) = match self.store().topic(topic) {
            Some(t) => (t.messages.len(), clone_strings(&t.key_fields), clone_strings(&t.payload_fields)),
            None => (0, Vec::new(), Vec::new()),
        };
        Ok(OpenKafkaTopicResponse {
            topic: owned(topic),
            kafka_total_count: count as i64,
            newly_indexed: count,
            key_fields,
            payload_fields,
            header_fields: Vec::new(),
            cleaned_up_i: 0,
            cleaned_up_m: 0,
            full_resync_triggers: Vec::new(),
            decode_failure_context: None,
            has_more: false,
        })
    }

    /// Nothing runs long enough to stop.
    fn cancel_indexing(&self, workspace: &str, topic: &str) -> (r: Result<(), EngineError>)
        ensures
            r is Ok,
    {
        Ok(())
    }

    /// Nothing is persisted, so there is nothing to record.
    fn record_placeholder(
        &self,
        workspace: &str,
        topic: &str,
        partition: i32,
        offset: i64,
        kind: DecodeFailureKind,
        reason: String,
    ) -> (r: Result<(), EngineError>)
        ensures
            r is Ok,
    {
        Ok(())
    }

    /// The fixture keeps no history of replaced values.
    fn fetch_compact_key_history(&self, workspace: &str, topic: &str, partition: u32, key_raw: &str) -> (r:
        Result<Option<CompactKeyHistory>, EngineError>)
        ensures
            r matches Ok(o) && o is None,
    {
        Ok(None)
    }

    /// Nor of deleted keys.
    fn fetch_compact_deleted_keys_page(
        &self,
        workspace: &str,
        topic: &str,
        key_query: &str,
        partitions: Option<Vec<u32>>,
        cursor: Option<CompactDeletedKeyCursor>,
        limit: Option<u32>,
    ) -> (r: Result<CompactDeletedKeysPage, EngineError>)
        ensures
            r matches Ok(p) && p.rows@.len() == 0 && p.next_cursor is None && p.scanned == 0,
    {
        Ok(CompactDeletedKeysPage { rows: Vec::new(), next_cursor: None, scanned: 0 })
    }
}

// ── Profiles and storage ────────────────────────────────────────────────────

impl ProfilesApi for MockEngine {
    fn list_cluster_profiles(&self) -> (r: Result<Vec<ClusterProfile>, EngineError>)
        ensures
            r matches Ok(v) && v@.len() == 0,
    {
        Ok(Vec::new())
    }

    fn save_cluster_profile(
        &self,
        workspace: &str,
        bootstrap: &str,
        cluster_id: Option<&str>,
        auth_config: Option<StoredAuthConfig>,
    ) -> (r: Result<(), EngineError>)
        ensures
            r is Ok,
    {
        Ok(())
    }

    fn delete_cluster_profile(&self, workspace: &str) -> (r: Result<(), EngineError>)
        ensures
            r is Ok,
    {
        Ok(())
    }
}

impl StorageApi for MockEngine {
    fn clear_workspace_index(&self, workspace: &str) -> (r: Result<usize, EngineError>)
        ensures
            r == Ok::<usize, EngineError>(0),
    {
        Ok(0)
    }

    fn clear_workspace_meta(&self, workspace: &str) -> (r: Result<usize, EngineError>)
        ensures
            r == Ok::<usize, EngineError>(0),
    {
        Ok(0)
    }

    fn clear_topic_index(&self, workspace: &str, topic: &str) -> (r: Result<usize, EngineError>)
        ensures
            r == Ok::<usize, EngineError>(0),
    {
        Ok(0)
    }

    fn clear_topic_meta(&self, workspace: &str, topic: &str) -> (r: Result<usize, EngineError>)
        ensures
            r == Ok::<usize, EngineError>(0),
    {
        Ok(0)
    }

    fn reset_workspace(&self, workspace: &str) -> (r: Result<(), EngineError>)
        ensures
            r is Ok,
    {
        Ok(())
    }

    fn clear_all(&self, workspace: &str, topic: Option<&str>) -> (r: Result<usize, EngineError>)
        ensures
            r == Ok::<usize, EngineError>(0),
    {
        Ok(0)
    }

    fn resync_meta(&self, workspace: &str, topic: Option<&str>) -> (r: Result<usize, EngineError>)
        ensures
            r == Ok::<usize, EngineError>(0),
    {
        Ok(0)
    }
}

// ── Registries ──────────────────────────────────────────────────────────────

impl RegistryApi for MockEngine {
    /// The saved registries, ordered by name ignoring case.
    fn list_registry_resources(&self) -> (r: Result<Vec<RegistryResource>, EngineError>)
        ensures
            r matches Ok(v) && v@ == stable_sort(self.held().registry_list(), by_name()),
    {
        Ok(self.store().list_registries())
    }

    /// Adds a registry, or replaces the one with its id. Kept only until the process ends.
    fn save_registry_resource(&mut self, resource: RegistryResource) -> (r: Result<(), EngineError>)
        ensures
            r is Ok,
            final(self).held().topic_list() == old(self).held().topic_list(),
            forall|t: Seq<char>| #[trigger] final(self).held().tokenized_fields(t) == old(
                self,
            ).held().tokenized_fields(t),
            final(self).held().registry_list() == save_spec(old(self).held().registry_list(), resource),
    {
        self.store_mut().save_registry(resource);
        Ok(())
    }

    fn delete_registry_resource(&mut self, id: &str) -> (r: Result<(), EngineError>)
        ensures
            r is Ok,
            final(self).held().topic_list() == old(self).held().topic_list(),
            forall|t: Seq<char>| #[trigger] final(self).held().tokenized_fields(t) == old(
                self,
            ).held().tokenized_fields(t),
            final(self).held().registry_list() == delete_spec(old(self).held().registry_list(), id@),
    {
        self.store_mut().delete_registry(id);
        Ok(())
    }

    /// Testing a connection means making one: this says so rather than pretending.
    fn test_registry_resource(&self, url: &str, basic_auth: Option<&str>) -> (r: Result<
        RegistryTestResult,
        EngineError,
    >)
        ensures
            r matches Ok(t) && !t.ok && t.message@
                == "The mock demo does not run a real connection test (works in production builds)"@
                && t.subject_count is None,
    {
        Ok(
            RegistryTestResult {
                ok: false,
                message: owned(
                    "The mock demo does not run a real connection test (works in production builds)",
                ),
                subject_count: None,
            },
        )
    }

    fn list_registry_subjects(&self, url: &str, basic_auth: Option<&str>) -> (r: Result<
        Vec<String>,
        EngineError,
    >)
        ensures
            r matches Ok(v) && v@.len() == 0,
    {
        Ok(Vec::new())
    }

    fn fetch_registry_subject_latest(&self, url: &str, basic_auth: Option<&str>, subject: &str) -> (r:
        Result<RegistrySchemaView, EngineError>)
        ensures
            r matches Ok(v) && v.subject@ == subject@ && v.schema_id == 0 && v.version == 0
                && v.schema_type is None && v.schema_text@ == "// mock engine — no schema"@,
    {
        Ok(
            RegistrySchemaView {
                subject: owned(subject),
                schema_id: 0,
                version: 0,
                schema_type: None,
                schema_text: owned("// mock engine — no schema"),
            },
        )
    }

    fn list_registry_schema_index(&self, url: &str, basic_auth: Option<&str>) -> (r: Result<
        Vec<RegistrySchemaIndexEntry>,
        EngineError,
    >)
        ensures
            r matches Ok(v) && v@.len() == 0,
    {
        Ok(Vec::new())
    }
}

} // verus!
