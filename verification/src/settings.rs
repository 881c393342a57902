//! The one place a setting's range lives: its minimum, maximum, and default.
//!
//! `min` and `max` are hard: a value outside them is clamped when it is read, not merely
//! rejected at input. Validation at the point of entry cannot protect a file that was
//! written by something else.

use vstd::prelude::*;

use crate::limits::TOPIC_INDEX_COUNT_CAP;
use crate::text::str_eq;

pub mod keys;

verus! {

/// The fixed range of one setting.
#[derive(Debug, Clone, Copy, PartialEq, Eq)]
pub struct Bounds<T> {
    pub min: T,
    pub max: T,
    pub default: T,
}

pub open spec fn clamp_u64(b: Bounds<u64>, v: u64) -> u64 {
    if v < b.min {
        b.min
    } else if v > b.max {
        b.max
    } else {
        v
    }
}

pub open spec fn clamp_no_floor_u64(b: Bounds<u64>, v: u64) -> u64 {
    let v = if v == 0 {
        1
    } else {
        v
    };
    if v > b.max {
        b.max
    } else {
        v
    }
}

pub open spec fn sanitize_destructive_u64(b: Bounds<u64>, v: u64) -> u64 {
    if v < b.min {
        b.default
    } else if v > b.max {
        b.max
    } else {
        v
    }
}

pub open spec fn clamp_usize(b: Bounds<usize>, v: usize) -> usize {
    if v < b.min {
        b.min
    } else if v > b.max {
        b.max
    } else {
        v
    }
}

pub open spec fn clamp_no_floor_usize(b: Bounds<usize>, v: usize) -> usize {
    let v = if v == 0 {
        1
    } else {
        v
    };
    if v > b.max {
        b.max
    } else {
        v
    }
}

/// A range is usable when its default lies inside it.
pub open spec fn well_ordered_u64(b: Bounds<u64>) -> bool {
    b.min <= b.default <= b.max
}

pub open spec fn well_ordered_usize(b: Bounds<usize>) -> bool {
    b.min <= b.default <= b.max
}

impl Bounds<u64> {
    /// `v` pinned into `[min, max]`.
    pub fn clamp(&self, v: u64) -> (r: u64)
        ensures
            r == clamp_u64(*self, v),
    {
        if v < self.min {
            self.min
        } else if v > self.max {
            self.max
        } else {
            v
        }
    }

    /// Relaxes the lower bound only. The ceiling still applies — it is there for
    /// stability, not preference. Zero still becomes one.
    pub fn clamp_no_floor(&self, v: u64) -> (r: u64)
        ensures
            r == clamp_no_floor_u64(*self, v),
    {
        let v = if v == 0 {
            1
        } else {
            v
        };
        if v > self.max {
            self.max
        } else {
            v
        }
    }

    /// Normalization for limits whose enforcement deletes data. A value below the minimum
    /// returns to `default`, not to `min`: pinning it to the minimum would fail in the most
    /// destructive direction. Above the maximum, ordinary clamping applies.
    pub fn sanitize_destructive(&self, v: u64) -> (r: u64)
        ensures
            r == sanitize_destructive_u64(*self, v),
    {
        if v < self.min {
            self.default
        } else if v > self.max {
            self.max
        } else {
            v
        }
    }
}

impl Bounds<usize> {
    /// `v` pinned into `[min, max]`.
    pub fn clamp(&self, v: usize) -> (r: usize)
        ensures
            r == clamp_usize(*self, v),
    {
        if v < self.min {
            self.min
        } else if v > self.max {
            self.max
        } else {
            v
        }
    }

    /// Relaxes the lower bound only; the ceiling still applies.
    pub fn clamp_no_floor(&self, v: usize) -> (r: usize)
        ensures
            r == clamp_no_floor_usize(*self, v),
    {
        let v = if v == 0 {
            1
        } else {
            v
        };
        if v > self.max {
            self.max
        } else {
            v
        }
    }
}

pub const GB: u64 = 1_073_741_824;

// ── Settings a user chooses ─────────────────────────────────────────────────

pub open spec fn spec_disk_limit_bytes() -> Bounds<u64> {
    Bounds { min: GB, max: (100 * GB) as u64, default: (10 * GB) as u64 }
}

/// How much disk one cluster's index may occupy. The maximum doubles as the value used
/// when no operator profile is available: this limit is enforced by deleting, so failing
/// toward the looser end matters.
#[verifier::when_used_as_spec(spec_disk_limit_bytes)]
pub fn disk_limit_bytes() -> (b: Bounds<u64>)
    ensures
        b == spec_disk_limit_bytes(),
{
    Bounds { min: GB, max: 100 * GB, default: 10 * GB }
}

pub open spec fn spec_size_cleanup_interval_secs() -> Bounds<u64> {
    Bounds { min: 60, max: 3_600, default: 600 }
}

/// How often the size limit is enforced, in seconds.
#[verifier::when_used_as_spec(spec_size_cleanup_interval_secs)]
pub fn size_cleanup_interval_secs() -> (b: Bounds<u64>)
    ensures
        b == spec_size_cleanup_interval_secs(),
{
    Bounds { min: 60, max: 3_600, default: 600 }
}

pub open spec fn spec_keep_count_per_partition() -> Bounds<u64> {
    Bounds { min: 1, max: TOPIC_INDEX_COUNT_CAP, default: 100_000 }
}

/// Default number of messages kept per partition when a topic does not set its own.
#[verifier::when_used_as_spec(spec_keep_count_per_partition)]
pub fn keep_count_per_partition() -> (b: Bounds<u64>)
    ensures
        b == spec_keep_count_per_partition(),
{
    Bounds { min: 1, max: TOPIC_INDEX_COUNT_CAP, default: 100_000 }
}

// ── Tuning values, not user settings (never persisted) ──────────────────────

pub open spec fn spec_indexing_batch_size() -> Bounds<usize> {
    Bounds { min: 100, max: 100_000, default: 1_000 }
}

#[verifier::when_used_as_spec(spec_indexing_batch_size)]
pub fn indexing_batch_size() -> (b: Bounds<usize>)
    ensures
        b == spec_indexing_batch_size(),
{
    Bounds { min: 100, max: 100_000, default: 1_000 }
}

pub open spec fn spec_auto_sync_slice_size() -> Bounds<usize> {
    Bounds { min: 1_000, max: 1_000_000, default: 50_000 }
}

#[verifier::when_used_as_spec(spec_auto_sync_slice_size)]
pub fn auto_sync_slice_size() -> (b: Bounds<usize>)
    ensures
        b == spec_auto_sync_slice_size(),
{
    Bounds { min: 1_000, max: 1_000_000, default: 50_000 }
}

pub open spec fn spec_retention_cleanup_interval_secs() -> Bounds<u64> {
    Bounds { min: 60, max: 86_400, default: 3_600 }
}

/// How often the safety-net sweep for retention cleanup runs, in seconds.
#[verifier::when_used_as_spec(spec_retention_cleanup_interval_secs)]
pub fn retention_cleanup_interval_secs() -> (b: Bounds<u64>)
    ensures
        b == spec_retention_cleanup_interval_secs(),
{
    Bounds { min: 60, max: 86_400, default: 3_600 }
}

pub open spec fn spec_retention_cleanup_wait_secs() -> Bounds<u64> {
    Bounds { min: 1, max: 600, default: 60 }
}

#[verifier::when_used_as_spec(spec_retention_cleanup_wait_secs)]
pub fn retention_cleanup_wait_secs() -> (b: Bounds<u64>)
    ensures
        b == spec_retention_cleanup_wait_secs(),
{
    Bounds { min: 1, max: 600, default: 60 }
}

pub open spec fn spec_size_cleanup_wait_secs() -> Bounds<u64> {
    Bounds { min: 1, max: 600, default: 30 }
}

#[verifier::when_used_as_spec(spec_size_cleanup_wait_secs)]
pub fn size_cleanup_wait_secs() -> (b: Bounds<u64>)
    ensures
        b == spec_size_cleanup_wait_secs(),
{
    Bounds { min: 1, max: 600, default: 30 }
}

pub open spec fn spec_foreground_acquire_wait_secs() -> Bounds<u64> {
    Bounds { min: 1, max: 600, default: 30 }
}

#[verifier::when_used_as_spec(spec_foreground_acquire_wait_secs)]
pub fn foreground_acquire_wait_secs() -> (b: Bounds<u64>)
    ensures
        b == spec_foreground_acquire_wait_secs(),
{
    Bounds { min: 1, max: 600, default: 30 }
}

/// The compression applied to newly written index data when nothing else is chosen.
pub const COMPRESSION_MODE_DEFAULT: &'static str = "snappy";

/// The compressions the local index can use.
pub fn compression_modes() -> (m: [&'static str; 3])
    ensures
        m@ == seq!["none", "snappy", "zstd"],
{
    ["none", "snappy", "zstd"]
}

// ── Limits an operator profile may set ──────────────────────────────────────

pub open spec fn spec_cluster_profile_cap_b() -> Bounds<usize> {
    Bounds { min: 1, max: 10, default: 2 }
}

#[verifier::when_used_as_spec(spec_cluster_profile_cap_b)]
pub fn cluster_profile_cap_b() -> (b: Bounds<usize>)
    ensures
        b == spec_cluster_profile_cap_b(),
{
    Bounds { min: 1, max: 10, default: 2 }
}

pub open spec fn spec_indexed_topic_cap_b() -> Bounds<usize> {
    Bounds { min: 1, max: 50, default: 5 }
}

#[verifier::when_used_as_spec(spec_indexed_topic_cap_b)]
pub fn indexed_topic_cap_b() -> (b: Bounds<usize>)
    ensures
        b == spec_indexed_topic_cap_b(),
{
    Bounds { min: 1, max: 50, default: 5 }
}

pub open spec fn spec_tokenize_field_cap_b() -> Bounds<usize> {
    Bounds { min: 1, max: 8, default: 1 }
}

#[verifier::when_used_as_spec(spec_tokenize_field_cap_b)]
pub fn tokenize_field_cap_b() -> (b: Bounds<usize>)
    ensures
        b == spec_tokenize_field_cap_b(),
{
    Bounds { min: 1, max: 8, default: 1 }
}

pub open spec fn spec_search_max_groups_b() -> Bounds<usize> {
    Bounds { min: 1, max: 10, default: 2 }
}

#[verifier::when_used_as_spec(spec_search_max_groups_b)]
pub fn search_max_groups_b() -> (b: Bounds<usize>)
    ensures
        b == spec_search_max_groups_b(),
{
    Bounds { min: 1, max: 10, default: 2 }
}

pub open spec fn spec_search_max_leaves_per_group_b() -> Bounds<usize> {
    Bounds { min: 1, max: 10, default: 3 }
}

#[verifier::when_used_as_spec(spec_search_max_leaves_per_group_b)]
pub fn search_max_leaves_per_group_b() -> (b: Bounds<usize>)
    ensures
        b == spec_search_max_leaves_per_group_b(),
{
    Bounds { min: 1, max: 10, default: 3 }
}

pub open spec fn spec_query_max_leaves_b() -> Bounds<usize> {
    Bounds { min: 1, max: 64, default: 10 }
}

/// A backstop: a query carrying more leaves than this is refused, whatever composed it.
#[verifier::when_used_as_spec(spec_query_max_leaves_b)]
pub fn query_max_leaves_b() -> (b: Bounds<usize>)
    ensures
        b == spec_query_max_leaves_b(),
{
    Bounds { min: 1, max: 64, default: 10 }
}

pub open spec fn spec_topic_index_count_cap_b() -> Bounds<u64> {
    Bounds { min: 1, max: TOPIC_INDEX_COUNT_CAP, default: TOPIC_INDEX_COUNT_CAP }
}

/// Messages kept in one topic's index. Cannot be raised; a profile may tighten it.
#[verifier::when_used_as_spec(spec_topic_index_count_cap_b)]
pub fn topic_index_count_cap_b() -> (b: Bounds<u64>)
    ensures
        b == spec_topic_index_count_cap_b(),
{
    Bounds { min: 1, max: TOPIC_INDEX_COUNT_CAP, default: TOPIC_INDEX_COUNT_CAP }
}

// ── What a profile may say about one limit ──────────────────────────────────

/// A constraint a profile places on one item. It only ever narrows.
///
/// - `Fix` — pins the value, for items a user has no say in.
/// - `Max` — caps it, leaving the user free below that.
/// - `Allow` — a permitted set, for items that are choices rather than numbers.
#[derive(Debug)]
pub enum ProfileConstraint {
    Fix { value: u64 },
    Max { value: u64 },
    Allow { values: Vec<String> },
}

/// The item ids of an entry list, in order.
pub open spec fn entry_keys(s: Seq<(String, ProfileConstraint)>) -> Seq<Seq<char>> {
    s.map_values(|e: (String, ProfileConstraint)| e.0@)
}

/// The map an entry list stands for: each id to its constraint.
pub open spec fn entries_map(s: Seq<(String, ProfileConstraint)>) -> Map<
    Seq<char>,
    ProfileConstraint,
>
    decreases s.len(),
{
    if s.len() == 0 {
        Map::empty()
    } else {
        entries_map(s.drop_last()).insert(s.last().0@, s.last().1)
    }
}

/// The `limits` section of a profile, keyed by item id.
///
/// Deliberately open-ended: a new constraint can be introduced without shipping a new
/// build. Keys that are not recognised are ignored, so an older build stays safe when it
/// meets one. Each id appears at most once; inserting an id that is present replaces its
/// constraint.
pub struct ProfileLimits {
    entries: Vec<(String, ProfileConstraint)>,
}

impl View for ProfileLimits {
    type V = Map<Seq<char>, ProfileConstraint>;

    closed spec fn view(&self) -> Map<Seq<char>, ProfileConstraint> {
        entries_map(self.entries@)
    }
}

proof fn lemma_entries_map(s: Seq<(String, ProfileConstraint)>)
    requires
        entry_keys(s).no_duplicates(),
    ensures
        forall|k: Seq<char>| #[trigger]
            entries_map(s).contains_key(k) <==> entry_keys(s).contains(k),
        forall|i: int| 0 <= i < s.len() ==> #[trigger] entries_map(s)[s[i].0@] == s[i].1,
        entries_map(s).dom().finite(),
    decreases s.len(),
{
    if s.len() > 0 {
        let t = s.drop_last();
        assert(entry_keys(t) == entry_keys(s).drop_last());
        lemma_entries_map(t);
        assert forall|k: Seq<char>| #[trigger]
            entries_map(s).contains_key(k) <==> entry_keys(s).contains(k) by {
            if entry_keys(s).contains(k) {
                let j = choose|j: int| 0 <= j < entry_keys(s).len() && entry_keys(s)[j] == k;
                if j < s.len() - 1 {
                    assert(entry_keys(t)[j] == k);
                }
            }
            if entry_keys(t).contains(k) {
                let j = choose|j: int| 0 <= j < entry_keys(t).len() && entry_keys(t)[j] == k;
                assert(entry_keys(s)[j] == k);
            }
            if k == s.last().0@ {
                assert(entry_keys(s)[s.len() - 1] == k);
            }
        }
        assert forall|i: int| 0 <= i < s.len() implies #[trigger] entries_map(s)[s[i].0@]
            == s[i].1 by {
            if i < s.len() - 1 {
                assert(entry_keys(s)[i] != entry_keys(s)[s.len() - 1]);
                assert(t[i] == s[i]);
            }
        }
    }
}

impl ProfileLimits {
    #[verifier::type_invariant]
    closed spec fn distinct_ids(self) -> bool {
        entry_keys(self.entries@).no_duplicates()
    }

    /// No constraints at all.
    pub fn new() -> (p: Self)
        ensures
            p@ == Map::<Seq<char>, ProfileConstraint>::empty(),
    {
        ProfileLimits { entries: Vec::new() }
    }

    /// How many items are constrained.
    pub fn len(&self) -> (n: usize)
        ensures
            n == self@.dom().len(),
    {
        proof {
            use_type_invariant(self);
            lemma_entries_map(self.entries@);
            entry_keys(self.entries@).unique_seq_to_set();
            assert(self@.dom() =~= entry_keys(self.entries@).to_set());
        }
        self.entries.len()
    }

    /// The constraint on `key`, if the profile sets one.
    pub fn get(&self, key: &str) -> (r: Option<&ProfileConstraint>)
        ensures
            r matches Some(c) ==> self@.contains_key(key@) && self@[key@] == *c,
            r is None ==> !self@.contains_key(key@),
    {
        proof {
            use_type_invariant(self);
            lemma_entries_map(self.entries@);
        }
        let mut i: usize = 0;
        while i < self.entries.len()
            invariant
                i <= self.entries.len(),
                forall|j: int| 0 <= j < i ==> self.entries@[j].0@ != key@,
            decreases self.entries.len() - i,
        {
            if str_eq(self.entries[i].0.as_str(), key) {
                proof {
                    use_type_invariant(self);
                    lemma_entries_map(self.entries@);
                    assert(entry_keys(self.entries@)[i as int] == key@);
                }
                return Some(&self.entries[i].1);
            }
            i += 1;
        }
        proof {
            if entry_keys(self.entries@).contains(key@) {
                let j = choose|j: int|
                    0 <= j < entry_keys(self.entries@).len() && entry_keys(self.entries@)[j]
                        == key@;
                assert(self.entries@[j].0@ == key@);
            }
        }
        None
    }

    /// Sets the constraint on `key`, replacing any it had.
    pub fn insert(&mut self, key: String, value: ProfileConstraint)
        ensures
            final(self)@ == old(self)@.insert(key@, value),
    {
        proof {
            use_type_invariant(&*self);
            lemma_entries_map(self.entries@);
        }
        let ghost old_entries = self.entries@;
        let mut i: usize = 0;
        while i < self.entries.len()
            invariant
                self.entries@ == old_entries,
                old_entries == old(self).entries@,
                entry_keys(old_entries).no_duplicates(),
                i <= self.entries.len(),
                forall|j: int| 0 <= j < i ==> self.entries@[j].0@ != key@,
            decreases self.entries.len() - i,
        {
            if str_eq(self.entries[i].0.as_str(), key.as_str()) {
                let mut entries: Vec<(String, ProfileConstraint)> = Vec::new();
                std::mem::swap(&mut entries, &mut self.entries);
                entries.set(i, (key, value));
                proof {
                    let s = entries@;
                    assert(key@ == old_entries[i as int].0@);
                    lemma_entries_map(old_entries);
                    assert(entry_keys(s) =~= entry_keys(old_entries));
                    lemma_entries_map(s);
                    assert(entries_map(s) =~= entries_map(old_entries).insert(
                        old_entries[i as int].0@,
                        value,
                    )) by {
                        assert forall|k: Seq<char>|
                            entries_map(s).contains_key(k) implies entries_map(s)[k]
                            == entries_map(old_entries).insert(
                            old_entries[i as int].0@,
                            value,
                        )[k] by {
                            let j = choose|j: int|
                                0 <= j < entry_keys(s).len() && entry_keys(s)[j] == k;
                            assert(entries_map(s)[s[j].0@] == s[j].1);
                            assert(key@ == old_entries[i as int].0@);
                            if j != i {
                                assert(s[j] == old_entries[j]);
                                assert(entry_keys(old_entries)[j] != entry_keys(
                                    old_entries,
                                )[i as int]);
                                assert(entries_map(old_entries)[old_entries[j].0@]
                                    == old_entries[j].1);
                            }
                        }
                        assert forall|k: Seq<char>|
                            entries_map(old_entries).insert(
                                old_entries[i as int].0@,
                                value,
                            ).contains_key(k) implies entries_map(s).contains_key(k) by {
                            if k != old_entries[i as int].0@ {
                                assert(entry_keys(old_entries).contains(k));
                            } else {
                                assert(entry_keys(s)[i as int] == k);
                            }
                        }
                    }
                }
                self.entries = entries;
                return;
            }
            i += 1;
        }
        proof {
            assert(!entry_keys(old_entries).contains(key@)) by {
                if entry_keys(old_entries).contains(key@) {
                    let j = choose|j: int|
                        0 <= j < entry_keys(old_entries).len() && entry_keys(old_entries)[j]
                            == key@;
                    assert(old_entries[j].0@ == key@);
                }
            }
        }
        let mut entries: Vec<(String, ProfileConstraint)> = Vec::new();
        std::mem::swap(&mut entries, &mut self.entries);
        entries.push((key, value));
        proof {
            let s = entries@;
            assert(s.drop_last() == old_entries);
            assert(entry_keys(s) =~= entry_keys(old_entries).push(key@));
        }
        self.entries = entries;
    }
}

/// The limits a profile resolved to. Profile values are clamped to the hard bounds as
/// well: a profile is remote data and is not trusted on its own.
#[derive(Debug, Clone, PartialEq, Eq, Structural)]
pub struct PlanLimits {
    pub cluster_profile_cap: usize,
    pub indexed_topic_cap: usize,
    pub topic_index_count_cap: u64,
    pub tokenize_field_cap: usize,
    pub search_max_groups: usize,
    pub search_max_leaves_per_group: usize,
    pub query_max_leaves: usize,
}

pub open spec fn spec_default_plan() -> PlanLimits {
    PlanLimits {
        cluster_profile_cap: spec_cluster_profile_cap_b().default,
        indexed_topic_cap: spec_indexed_topic_cap_b().default,
        topic_index_count_cap: spec_topic_index_count_cap_b().default,
        tokenize_field_cap: spec_tokenize_field_cap_b().default,
        search_max_groups: spec_search_max_groups_b().default,
        search_max_leaves_per_group: spec_search_max_leaves_per_group_b().default,
        query_max_leaves: spec_query_max_leaves_b().default,
    }
}

impl Default for PlanLimits {
    /// Used when no profile is available. These limits only refuse to store or register
    /// something — they never delete — so falling back to the defaults is safe here.
    fn default() -> (p: Self)
        ensures
            p == spec_default_plan(),
    {
        PlanLimits {
            cluster_profile_cap: cluster_profile_cap_b().default,
            indexed_topic_cap: indexed_topic_cap_b().default,
            topic_index_count_cap: topic_index_count_cap_b().default,
            tokenize_field_cap: tokenize_field_cap_b().default,
            search_max_groups: search_max_groups_b().default,
            search_max_leaves_per_group: search_max_leaves_per_group_b().default,
            query_max_leaves: query_max_leaves_b().default,
        }
    }
}

/// A `Fix` on `key` clamped to its bounds; anything else leaves the default.
pub open spec fn fix_usize_spec(m: Map<Seq<char>, ProfileConstraint>, key: Seq<char>, b: Bounds<
    usize,
>) -> usize {
    if m.contains_key(key) {
        match m[key] {
            ProfileConstraint::Fix { value } => clamp_usize(b, value as usize),
            _ => b.default,
        }
    } else {
        b.default
    }
}

pub open spec fn fix_u64_spec(m: Map<Seq<char>, ProfileConstraint>, key: Seq<char>, b: Bounds<
    u64,
>) -> u64 {
    if m.contains_key(key) {
        match m[key] {
            ProfileConstraint::Fix { value } => clamp_u64(b, value),
            _ => b.default,
        }
    } else {
        b.default
    }
}

/// Reads a `Fix` value against its bounds; anything else falls back to the default.
///
/// A `Max` or `Allow` on an item the user cannot set is ignored — a cap means nothing
/// where there is no choice to cap, and a misconfigured profile should not move behaviour.
fn fix_usize(limits: &ProfileLimits, key: &str, bounds: Bounds<usize>) -> (r: usize)
    ensures
        r == fix_usize_spec(limits@, key@, bounds),
{
    match limits.get(key) {
        Some(ProfileConstraint::Fix { value }) => bounds.clamp(*value as usize),
        _ => bounds.default,
    }
}

fn fix_u64(limits: &ProfileLimits, key: &str, bounds: Bounds<u64>) -> (r: u64)
    ensures
        r == fix_u64_spec(limits@, key@, bounds),
{
    match limits.get(key) {
        Some(ProfileConstraint::Fix { value }) => bounds.clamp(*value),
        _ => bounds.default,
    }
}

/// The seven item ids a plan reads.
pub open spec fn plan_keys() -> Seq<Seq<char>> {
    seq![
        keys::CLUSTER_COUNT@,
        keys::INDEXED_TOPIC_COUNT@,
        keys::TOPIC_INDEX_COUNT@,
        keys::TOKENIZE_FIELD_COUNT@,
        keys::SEARCH_GROUPS@,
        keys::SEARCH_LEAVES_PER_GROUP@,
        keys::QUERY_LEAVES@,
    ]
}

/// The plan a profile resolves to.
pub open spec fn plan_of(m: Map<Seq<char>, ProfileConstraint>) -> PlanLimits {
    PlanLimits {
        cluster_profile_cap: fix_usize_spec(m, keys::CLUSTER_COUNT@, spec_cluster_profile_cap_b()),
        indexed_topic_cap: fix_usize_spec(
            m,
            keys::INDEXED_TOPIC_COUNT@,
            spec_indexed_topic_cap_b(),
        ),
        topic_index_count_cap: fix_u64_spec(
            m,
            keys::TOPIC_INDEX_COUNT@,
            spec_topic_index_count_cap_b(),
        ),
        tokenize_field_cap: fix_usize_spec(
            m,
            keys::TOKENIZE_FIELD_COUNT@,
            spec_tokenize_field_cap_b(),
        ),
        search_max_groups: fix_usize_spec(m, keys::SEARCH_GROUPS@, spec_search_max_groups_b()),
        search_max_leaves_per_group: fix_usize_spec(
            m,
            keys::SEARCH_LEAVES_PER_GROUP@,
            spec_search_max_leaves_per_group_b(),
        ),
        query_max_leaves: fix_usize_spec(m, keys::QUERY_LEAVES@, spec_query_max_leaves_b()),
    }
}

impl PlanLimits {
    /// Resolves a profile into effective limits. Unknown keys and constraint types that
    /// do not apply are ignored, and every result is clamped to its bounds.
    pub fn resolve(limits: &ProfileLimits) -> (p: Self)
        ensures
            p == plan_of(limits@),
    {
        PlanLimits {
            cluster_profile_cap: fix_usize(limits, keys::CLUSTER_COUNT, cluster_profile_cap_b()),
            indexed_topic_cap: fix_usize(limits, keys::INDEXED_TOPIC_COUNT, indexed_topic_cap_b()),
            topic_index_count_cap: fix_u64(
                limits,
                keys::TOPIC_INDEX_COUNT,
                topic_index_count_cap_b(),
            ),
            tokenize_field_cap: fix_usize(
                limits,
                keys::TOKENIZE_FIELD_COUNT,
                tokenize_field_cap_b(),
            ),
            search_max_groups: fix_usize(limits, keys::SEARCH_GROUPS, search_max_groups_b()),
            search_max_leaves_per_group: fix_usize(
                limits,
                keys::SEARCH_LEAVES_PER_GROUP,
                search_max_leaves_per_group_b(),
            ),
            query_max_leaves: fix_usize(limits, keys::QUERY_LEAVES, query_max_leaves_b()),
        }
    }
}

/// The limits actually in force, resolved once.
#[derive(Debug, Clone, PartialEq, Eq, Structural)]
pub struct EffectiveLimitsView {
    /// Limits the profile decided; read-only, and useful for refusing early.
    pub plan: PlanLimits,
    /// The disk limit in force for one cluster.
    pub disk_limit_bytes: u64,
    /// The range an input should offer for the above.
    pub disk_min_bytes: u64,
    pub disk_max_bytes: u64,
    /// Whether a profile pinned the disk limit; if so, it is not the user's to change.
    pub disk_locked: bool,
    /// Whether this is a debug build.
    pub debug_build: bool,
}

/// A system limit, reported for diagnosis only.
#[derive(Debug, Clone, PartialEq, Eq)]
pub struct SystemLimitEntry {
    /// The constant's name, so a report can be traced back to it.
    pub name: String,
    pub value: u64,
    /// One line on why it is what it is.
    pub note: String,
}

/// The list of system limits to report.
#[derive(Debug, Clone, PartialEq, Eq)]
pub struct SystemLimitsView {
    pub entries: Vec<SystemLimitEntry>,
}

impl SystemLimitsView {
    /// An empty report.
    pub fn empty() -> (v: Self)
        ensures
            v.entries@ == Seq::<SystemLimitEntry>::empty(),
    {
        SystemLimitsView { entries: Vec::new() }
    }
}

/// The highest disk limit an input should offer, for a profile given as a map. A cap or a
/// pinned value from the profile is itself held inside the hard range: a profile arrives
/// over the network and cannot move a value outside it.
pub open spec fn disk_max_spec(m: Map<Seq<char>, ProfileConstraint>) -> u64 {
    if m.contains_key(keys::DISK_BYTES@) {
        match m[keys::DISK_BYTES@] {
            ProfileConstraint::Max { value } => clamp_u64(spec_disk_limit_bytes(), value),
            ProfileConstraint::Fix { value } => clamp_u64(spec_disk_limit_bytes(), value),
            _ => spec_disk_limit_bytes().max,
        }
    } else {
        spec_disk_limit_bytes().max
    }
}

/// Whether a profile given as a map pins the disk limit.
pub open spec fn disk_locked_spec(m: Map<Seq<char>, ProfileConstraint>) -> bool {
    m.contains_key(keys::DISK_BYTES@) && m[keys::DISK_BYTES@] is Fix
}

/// The disk limit in force: the user's value held inside the hard range, then inside the
/// profile's cap; a pinned value replaces the user's outright.
pub open spec fn effective_disk_spec(
    user_value: u64,
    m: Map<Seq<char>, ProfileConstraint>,
    debug_build: bool,
) -> u64 {
    if disk_locked_spec(m) {
        disk_max_spec(m)
    } else {
        let v = if debug_build {
            clamp_no_floor_u64(spec_disk_limit_bytes(), user_value)
        } else {
            sanitize_destructive_u64(spec_disk_limit_bytes(), user_value)
        };
        if v < disk_max_spec(m) {
            v
        } else {
            disk_max_spec(m)
        }
    }
}

/// The disk limit actually in force: the user's value, held inside the hard range and
/// then inside whatever the profile allows, the profile's own figure being held inside
/// the hard range first.
///
/// With no profile the ceiling stays at its maximum rather than dropping — this limit is
/// enforced by deleting. A value below the floor returns to the default rather than to
/// the floor, for the reason given on `sanitize_destructive`.
pub fn effective_disk_limit(user_value: u64, limits: &ProfileLimits, debug_build: bool) -> (r: u64)
    ensures
        r == effective_disk_spec(user_value, limits@, debug_build),
{
    let bounds = disk_limit_bytes();
    let profile_max = match limits.get(keys::DISK_BYTES) {
        Some(ProfileConstraint::Max { value }) => bounds.clamp(*value),
        // Pinned by the profile: the user's own value does not apply.
        Some(ProfileConstraint::Fix { value }) => {
            let fixed = bounds.clamp(*value);
            return fixed;
        },
        _ => bounds.max,
    };
    let v = if debug_build {
        bounds.clamp_no_floor(user_value)
    } else {
        bounds.sanitize_destructive(user_value)
    };
    if v < profile_max {
        v
    } else {
        profile_max
    }
}

/// The highest disk limit an input should offer.
pub fn disk_limit_max(limits: &ProfileLimits) -> (r: u64)
    ensures
        r == disk_max_spec(limits@),
{
    let bounds = disk_limit_bytes();
    match limits.get(keys::DISK_BYTES) {
        Some(ProfileConstraint::Max { value }) => bounds.clamp(*value),
        Some(ProfileConstraint::Fix { value }) => bounds.clamp(*value),
        _ => bounds.max,
    }
}

/// Whether a profile pinned the disk limit.
pub fn disk_limit_locked(limits: &ProfileLimits) -> (r: bool)
    ensures
        r == disk_locked_spec(limits@),
{
    match limits.get(keys::DISK_BYTES) {
        Some(ProfileConstraint::Fix { .. }) => true,
        _ => false,
    }
}

/// Everything resolved at once: the plan the profile decides, the disk limit in force,
/// the range an input should offer, whether the limit is pinned, and the build kind.
pub open spec fn resolved_view(
    user_disk: u64,
    limits: Map<Seq<char>, ProfileConstraint>,
    debug_build: bool,
) -> EffectiveLimitsView {
    EffectiveLimitsView {
        plan: plan_of(limits),
        disk_limit_bytes: effective_disk_spec(user_disk, limits, debug_build),
        disk_min_bytes: if debug_build {
            1
        } else {
            spec_disk_limit_bytes().min
        },
        disk_max_bytes: disk_max_spec(limits),
        disk_locked: disk_locked_spec(limits),
        debug_build,
    }
}

impl EffectiveLimitsView {
    /// Resolves everything at once. `user_disk` is the value the user has chosen.
    pub fn resolve(user_disk: u64, limits: &ProfileLimits, debug_build: bool) -> (v: Self)
        ensures
            v == resolved_view(user_disk, limits@, debug_build),
    {
        EffectiveLimitsView {
            plan: PlanLimits::resolve(limits),
            disk_limit_bytes: effective_disk_limit(user_disk, limits, debug_build),
            disk_min_bytes: if debug_build {
                1
            } else {
                disk_limit_bytes().min
            },
            disk_max_bytes: disk_limit_max(limits),
            disk_locked: disk_limit_locked(limits),
            debug_build,
        }
    }
}

// ── Laws ────────────────────────────────────────────────────────────────────

/// Clamping keeps a value inside a well-ordered range, leaves a value already inside it
/// unchanged, and applying it twice gives what applying it once gave.
pub proof fn law_clamp_u64(b: Bounds<u64>, v: u64)
    requires
        well_ordered_u64(b),
    ensures
        b.min <= clamp_u64(b, v) <= b.max,
        b.min <= v <= b.max ==> clamp_u64(b, v) == v,
        clamp_u64(b, clamp_u64(b, v)) == clamp_u64(b, v),
{
}

/// The same three facts for ranges of `usize`.
pub proof fn law_clamp_usize(b: Bounds<usize>, v: usize)
    requires
        well_ordered_usize(b),
    ensures
        b.min <= clamp_usize(b, v) <= b.max,
        b.min <= v <= b.max ==> clamp_usize(b, v) == v,
        clamp_usize(b, clamp_usize(b, v)) == clamp_usize(b, v),
{
}

/// Relaxing the floor never relaxes the ceiling, and never yields zero.
pub proof fn law_clamp_no_floor_u64(b: Bounds<u64>, v: u64)
    requires
        1 <= b.max,
    ensures
        1 <= clamp_no_floor_u64(b, v) <= b.max,
        1 <= v <= b.max ==> clamp_no_floor_u64(b, v) == v,
{
}

/// A value below the floor of a destructive limit returns to the default, never to the
/// floor; the result stays inside the range, and a value inside it is kept.
pub proof fn law_sanitize_destructive(b: Bounds<u64>, v: u64)
    requires
        well_ordered_u64(b),
    ensures
        v < b.min ==> sanitize_destructive_u64(b, v) == b.default,
        b.min <= sanitize_destructive_u64(b, v) <= b.max,
        b.min <= v <= b.max ==> sanitize_destructive_u64(b, v) == v,
{
}

/// Every resolved limit lies inside its hard bounds, whatever the profile says.
pub proof fn law_plan_within_bounds(m: Map<Seq<char>, ProfileConstraint>)
    ensures
        1 <= plan_of(m).cluster_profile_cap <= 10,
        1 <= plan_of(m).indexed_topic_cap <= 50,
        1 <= plan_of(m).topic_index_count_cap <= TOPIC_INDEX_COUNT_CAP,
        1 <= plan_of(m).tokenize_field_cap <= 8,
        1 <= plan_of(m).search_max_groups <= 10,
        1 <= plan_of(m).search_max_leaves_per_group <= 10,
        1 <= plan_of(m).query_max_leaves <= 64,
{
}

/// No profile means the shipped defaults.
pub proof fn law_empty_profile_is_default()
    ensures
        plan_of(Map::empty()) == spec_default_plan(),
{
}

/// A key the plan does not read changes nothing, whatever constraint it carries, so an
/// older build meeting a newer profile stays safe.
pub proof fn law_unknown_key_ignored(
    m: Map<Seq<char>, ProfileConstraint>,
    k: Seq<char>,
    c: ProfileConstraint,
)
    requires
        !plan_keys().contains(k),
    ensures
        plan_of(m.insert(k, c)) == plan_of(m),
{
    assert(plan_keys()[0] == keys::CLUSTER_COUNT@);
    assert(plan_keys()[1] == keys::INDEXED_TOPIC_COUNT@);
    assert(plan_keys()[2] == keys::TOPIC_INDEX_COUNT@);
    assert(plan_keys()[3] == keys::TOKENIZE_FIELD_COUNT@);
    assert(plan_keys()[4] == keys::SEARCH_GROUPS@);
    assert(plan_keys()[5] == keys::SEARCH_LEAVES_PER_GROUP@);
    assert(plan_keys()[6] == keys::QUERY_LEAVES@);
}

/// A constraint other than `Fix` on an item a user has no say in is ignored.
pub proof fn law_non_fix_ignored(m: Map<Seq<char>, ProfileConstraint>, k: Seq<char>, c: ProfileConstraint)
    requires
        !(c is Fix),
    ensures
        plan_of(m.insert(k, c)) == plan_of(m.remove(k)),
{
}

/// The disk limit in force never exceeds the highest value an input offers, which lies
/// inside the hard range whatever the profile says; outside a debug build it never falls
/// below the hard floor, and in one never to zero. When the profile pins it, it is that
/// value.
pub proof fn law_disk_limit_within_offer(
    user_value: u64,
    m: Map<Seq<char>, ProfileConstraint>,
    debug_build: bool,
)
    ensures
        effective_disk_spec(user_value, m, debug_build) <= disk_max_spec(m),
        spec_disk_limit_bytes().min <= disk_max_spec(m) <= spec_disk_limit_bytes().max,
        !debug_build ==> spec_disk_limit_bytes().min <= effective_disk_spec(user_value, m, false),
        debug_build ==> 1 <= effective_disk_spec(user_value, m, true),
        disk_locked_spec(m) ==> effective_disk_spec(user_value, m, debug_build) == disk_max_spec(
            m,
        ),
{
}

/// Without a profile entry for the disk limit, the ceiling stays at its maximum: a user's
/// value inside the hard range is kept as chosen, and one above it stops at the maximum.
pub proof fn law_disk_limit_fails_open(user_value: u64, m: Map<Seq<char>, ProfileConstraint>)
    requires
        !m.contains_key(keys::DISK_BYTES@),
    ensures
        disk_max_spec(m) == spec_disk_limit_bytes().max,
        spec_disk_limit_bytes().min <= user_value <= spec_disk_limit_bytes().max
            ==> effective_disk_spec(user_value, m, false) == user_value,
        user_value > spec_disk_limit_bytes().max ==> effective_disk_spec(user_value, m, false)
            == spec_disk_limit_bytes().max,
        user_value < spec_disk_limit_bytes().min ==> effective_disk_spec(user_value, m, false)
            == spec_disk_limit_bytes().default,
{
}

/// A profile that pins a limit to a value inside its hard range gets exactly that value:
/// for each item the plan reads, a `Fix` between the item's floor and ceiling is the
/// plan's figure for it.
pub proof fn law_fix_in_bounds_is_used(m: Map<Seq<char>, ProfileConstraint>, v: u64)
    ensures
        (m.contains_key(keys::CLUSTER_COUNT@) && m[keys::CLUSTER_COUNT@] == ProfileConstraint::Fix { value: v }
            && 1 <= v <= 10) ==> plan_of(m).cluster_profile_cap == v,
        (m.contains_key(keys::INDEXED_TOPIC_COUNT@) && m[keys::INDEXED_TOPIC_COUNT@] == ProfileConstraint::Fix { value: v }
            && 1 <= v <= 50) ==> plan_of(m).indexed_topic_cap == v,
        (m.contains_key(keys::TOPIC_INDEX_COUNT@) && m[keys::TOPIC_INDEX_COUNT@] == ProfileConstraint::Fix { value: v }
            && 1 <= v <= 5000000) ==> plan_of(m).topic_index_count_cap == v,
        (m.contains_key(keys::TOKENIZE_FIELD_COUNT@) && m[keys::TOKENIZE_FIELD_COUNT@] == ProfileConstraint::Fix { value: v }
            && 1 <= v <= 8) ==> plan_of(m).tokenize_field_cap == v,
        (m.contains_key(keys::SEARCH_GROUPS@) && m[keys::SEARCH_GROUPS@] == ProfileConstraint::Fix { value: v }
            && 1 <= v <= 10) ==> plan_of(m).search_max_groups == v,
        (m.contains_key(keys::SEARCH_LEAVES_PER_GROUP@) && m[keys::SEARCH_LEAVES_PER_GROUP@] == ProfileConstraint::Fix { value: v }
            && 1 <= v <= 10) ==> plan_of(m).search_max_leaves_per_group == v,
        (m.contains_key(keys::QUERY_LEAVES@) && m[keys::QUERY_LEAVES@] == ProfileConstraint::Fix { value: v }
            && 1 <= v <= 64) ==> plan_of(m).query_max_leaves == v,
{
}

} // verus!
