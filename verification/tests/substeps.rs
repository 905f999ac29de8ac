use nbody::substeps::{SubstepCounter, MAX_SUBSTEPS};

#[test]
fn fresh_counter_has_taken_nothing() {
    assert_eq!(SubstepCounter::new().taken(), 0);
}

#[test]
fn counter_grants_exactly_max_substeps() {
    let mut c = SubstepCounter::new();
    let mut granted: u32 = 0;
    for _ in 0..(MAX_SUBSTEPS + 10) {
        if c.try_take() {
            granted += 1;
        }
    }
    assert_eq!(granted, 50_000);
    assert_eq!(c.taken(), 50_000);
    assert!(!c.try_take());
}

#[test]
fn counter_counts_each_grant() {
    let mut c = SubstepCounter::new();
    assert!(c.try_take());
    assert!(c.try_take());
    assert_eq!(c.taken(), 2);
}
