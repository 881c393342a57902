use kaflow::limits::TOPIC_INDEX_COUNT_CAP;
use kaflow::settings::keys;
use kaflow::settings::{
    auto_sync_slice_size, cluster_profile_cap_b, disk_limit_bytes, disk_limit_locked,
    disk_limit_max, effective_disk_limit, indexing_batch_size, keep_count_per_partition,
    size_cleanup_interval_secs, EffectiveLimitsView, PlanLimits, ProfileConstraint,
    ProfileLimits, GB,
};

fn limits_of(pairs: Vec<(&str, ProfileConstraint)>) -> ProfileLimits {
    let mut p = ProfileLimits::new();
    for (k, v) in pairs {
        p.insert(k.to_string(), v);
    }
    p
}

#[test]
fn defaults_are_inside_bounds() {
    let disk = disk_limit_bytes();
    let interval = size_cleanup_interval_secs();
    let keep = keep_count_per_partition();
    let batch = indexing_batch_size();
    let slice = auto_sync_slice_size();
    assert!(disk.default >= disk.min);
    assert!(disk.default <= disk.max);
    assert!(interval.default >= interval.min);
    assert!(interval.default <= interval.max);
    assert!(keep.default <= keep.max);
    assert!(batch.default >= batch.min);
    assert!(slice.default <= slice.max);
}

#[test]
fn clamp_pins_to_range() {
    assert_eq!(disk_limit_bytes().clamp(0), GB);
    assert_eq!(disk_limit_bytes().clamp(200 * GB), 100 * GB);
    assert_eq!(disk_limit_bytes().clamp(5 * GB), 5 * GB);
    assert_eq!(size_cleanup_interval_secs().clamp(1), 60);
    assert_eq!(size_cleanup_interval_secs().clamp(86_400), 3_600);
}

#[test]
fn debug_bypasses_floor_but_not_ceiling() {
    assert_eq!(
        disk_limit_bytes().clamp_no_floor(100 * 1_048_576),
        104_857_600
    );
    assert_eq!(disk_limit_bytes().clamp_no_floor(0), 1);
    assert_eq!(disk_limit_bytes().clamp_no_floor(500 * GB), 100 * GB);
}

#[test]
fn keep_count_ceiling_tracks_topic_cap() {
    assert_eq!(keep_count_per_partition().max, TOPIC_INDEX_COUNT_CAP);
}

#[test]
fn no_profile_yields_launch_defaults() {
    let plan = PlanLimits::resolve(&ProfileLimits::new());
    assert_eq!(plan, PlanLimits::default());
    assert_eq!(plan.cluster_profile_cap, 2);
    assert_eq!(plan.indexed_topic_cap, 5);
    assert_eq!(plan.topic_index_count_cap, TOPIC_INDEX_COUNT_CAP);
}

#[test]
fn profile_fix_raises_within_bounds() {
    let plan = PlanLimits::resolve(&limits_of(vec![
        (keys::CLUSTER_COUNT, ProfileConstraint::Fix { value: 5 }),
        (
            keys::INDEXED_TOPIC_COUNT,
            ProfileConstraint::Fix { value: 20 },
        ),
    ]));
    assert_eq!(plan.cluster_profile_cap, 5);
    assert_eq!(plan.indexed_topic_cap, 20);
}

#[test]
fn profile_cannot_exceed_hard_ceiling() {
    let plan = PlanLimits::resolve(&limits_of(vec![
        (keys::CLUSTER_COUNT, ProfileConstraint::Fix { value: 9_999 }),
        (
            keys::TOPIC_INDEX_COUNT,
            ProfileConstraint::Fix { value: 50_000_000 },
        ),
    ]));
    assert_eq!(plan.cluster_profile_cap, cluster_profile_cap_b().max);
    assert_eq!(plan.topic_index_count_cap, TOPIC_INDEX_COUNT_CAP);
}

#[test]
fn wrong_constraint_type_is_ignored() {
    let plan = PlanLimits::resolve(&limits_of(vec![
        (keys::CLUSTER_COUNT, ProfileConstraint::Max { value: 7 }),
        (
            keys::INDEXED_TOPIC_COUNT,
            ProfileConstraint::Allow {
                values: vec!["x".into()],
            },
        ),
    ]));
    assert_eq!(plan.cluster_profile_cap, 2);
    assert_eq!(plan.indexed_topic_cap, 5);
}

#[test]
fn unknown_keys_are_ignored() {
    let plan = PlanLimits::resolve(&limits_of(vec![(
        "someLimitAddedLater",
        ProfileConstraint::Fix { value: 3 },
    )]));
    assert_eq!(plan, PlanLimits::default());
}

#[test]
fn disk_limit_fails_open_without_profile() {
    let none = ProfileLimits::new();
    assert_eq!(effective_disk_limit(50 * GB, &none, false), 50 * GB);
    assert_eq!(effective_disk_limit(200 * GB, &none, false), 100 * GB);
}

#[test]
fn sub_floor_persisted_value_falls_back_to_default_not_floor() {
    let none = ProfileLimits::new();
    assert_eq!(effective_disk_limit(100 * 1_048_576, &none, false), 10 * GB);
    assert_eq!(effective_disk_limit(0, &none, false), 10 * GB);
    assert_eq!(effective_disk_limit(GB, &none, false), GB);
}

#[test]
fn disk_limit_tightened_by_profile_max() {
    let free = limits_of(vec![(
        keys::DISK_BYTES,
        ProfileConstraint::Max { value: 10 * GB },
    )]);
    assert_eq!(effective_disk_limit(50 * GB, &free, false), 10 * GB);
    assert_eq!(effective_disk_limit(3 * GB, &free, false), 3 * GB);
}

#[test]
fn disk_limit_locked_by_profile_fix() {
    let locked = limits_of(vec![(
        keys::DISK_BYTES,
        ProfileConstraint::Fix { value: 5 * GB },
    )]);
    assert_eq!(effective_disk_limit(50 * GB, &locked, false), 5 * GB);
    assert_eq!(effective_disk_limit(1 * GB, &locked, false), 5 * GB);
}

#[test]
fn debug_bypasses_floor_only() {
    let none = ProfileLimits::new();
    assert_eq!(
        effective_disk_limit(100 * 1_048_576, &none, true),
        100 * 1_048_576
    );
    assert_eq!(effective_disk_limit(500 * GB, &none, true), 100 * GB);
}

#[test]
fn sanitize_destructive_returns_below_floor_to_default() {
    let b = disk_limit_bytes();
    assert_eq!(b.sanitize_destructive(1), 10 * GB);
    assert_eq!(b.sanitize_destructive(2 * GB), 2 * GB);
    assert_eq!(b.sanitize_destructive(101 * GB), 100 * GB);
}

#[test]
fn resolved_view_reports_every_part() {
    let v = EffectiveLimitsView::resolve(10 * GB, &ProfileLimits::new(), false);
    assert_eq!(v.plan, PlanLimits::default());
    assert_eq!(v.disk_limit_bytes, 10 * GB);
    assert_eq!(v.disk_min_bytes, GB);
    assert_eq!(v.disk_max_bytes, 100 * GB);
    assert!(!v.disk_locked);
    assert!(!v.debug_build);

    let debug = EffectiveLimitsView::resolve(0, &ProfileLimits::new(), true);
    assert_eq!(debug.disk_min_bytes, 1);
    assert_eq!(debug.disk_limit_bytes, 1);
}

#[test]
fn disk_range_follows_the_profile() {
    let capped = limits_of(vec![(
        keys::DISK_BYTES,
        ProfileConstraint::Max { value: 20 * GB },
    )]);
    assert_eq!(disk_limit_max(&capped), 20 * GB);
    assert!(!disk_limit_locked(&capped));

    let huge = limits_of(vec![(
        keys::DISK_BYTES,
        ProfileConstraint::Max { value: 500 * GB },
    )]);
    assert_eq!(disk_limit_max(&huge), 100 * GB);

    let pinned = limits_of(vec![(
        keys::DISK_BYTES,
        ProfileConstraint::Fix { value: 0 },
    )]);
    assert_eq!(disk_limit_max(&pinned), GB);
    assert!(disk_limit_locked(&pinned));
}

#[test]
fn profile_insert_replaces_and_counts_once() {
    let mut p = ProfileLimits::new();
    assert_eq!(p.len(), 0);
    p.insert(keys::CLUSTER_COUNT.to_string(), ProfileConstraint::Fix { value: 3 });
    p.insert(keys::CLUSTER_COUNT.to_string(), ProfileConstraint::Fix { value: 4 });
    assert_eq!(p.len(), 1);
    assert!(matches!(
        p.get(keys::CLUSTER_COUNT),
        Some(ProfileConstraint::Fix { value: 4 })
    ));
    assert!(p.get(keys::QUERY_LEAVES).is_none());
}

#[test]
fn profile_cap_cannot_push_the_disk_limit_below_the_floor() {
    let tiny = limits_of(vec![(keys::DISK_BYTES, ProfileConstraint::Max { value: 0 })]);
    assert_eq!(disk_limit_max(&tiny), GB);
    assert_eq!(effective_disk_limit(50 * GB, &tiny, false), GB);
    assert_eq!(effective_disk_limit(0, &tiny, false), GB);
}
