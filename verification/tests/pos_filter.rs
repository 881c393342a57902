use kaflow::search::PosFilter;

#[test]
fn empty_filter_passes_everything_and_is_noop() {
    let f = PosFilter::default();
    assert!(f.is_noop());
    assert!(f.passes(0, 0));
    assert!(f.passes(7, u64::MAX));
}

#[test]
fn partition_set_filters() {
    let f = PosFilter {
        partitions: vec![1, 3],
        ..Default::default()
    };
    assert!(!f.is_noop());
    assert!(f.passes(1, 100));
    assert!(f.passes(3, 0));
    assert!(!f.passes(2, 100));
    assert!(!f.passes(0, 100));
}

#[test]
fn offset_range_is_inclusive() {
    let f = PosFilter {
        offset_gte: Some(10),
        offset_lte: Some(20),
        ..Default::default()
    };
    assert!(!f.passes(0, 9));
    assert!(f.passes(0, 10));
    assert!(f.passes(0, 15));
    assert!(f.passes(0, 20));
    assert!(!f.passes(0, 21));
}

#[test]
fn open_ended_offset_bounds() {
    let lo_only = PosFilter {
        offset_gte: Some(100),
        ..Default::default()
    };
    assert!(!lo_only.passes(0, 99));
    assert!(lo_only.passes(0, u64::MAX));

    let hi_only = PosFilter {
        offset_lte: Some(100),
        ..Default::default()
    };
    assert!(hi_only.passes(0, 0));
    assert!(!hi_only.passes(0, 101));
}

#[test]
fn partition_and_offset_both_apply() {
    let f = PosFilter {
        partitions: vec![2],
        offset_gte: Some(50),
        offset_lte: None,
    };
    assert!(f.passes(2, 50));
    assert!(!f.passes(2, 49));
    assert!(!f.passes(3, 100));
}

#[test]
fn only_offset_bounds_make_a_filter_active() {
    let f = PosFilter {
        offset_lte: Some(0),
        ..Default::default()
    };
    assert!(!f.is_noop());
    assert!(f.passes(9, 0));
    assert!(!f.passes(9, 1));
}

#[test]
fn copy_keeps_every_field() {
    let f = PosFilter {
        partitions: vec![4, 5],
        offset_gte: Some(3),
        offset_lte: Some(8),
    };
    let g = f.copy();
    assert_eq!(g.partitions, vec![4, 5]);
    assert_eq!(g.offset_gte, Some(3));
    assert_eq!(g.offset_lte, Some(8));
}
