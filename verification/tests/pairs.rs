use nbody::pairs::pair_schedule;

#[test]
fn no_pairs_for_fewer_than_two_bodies() {
    assert!(pair_schedule(0).is_empty());
    assert!(pair_schedule(1).is_empty());
}

#[test]
fn two_bodies_make_one_pair() {
    assert_eq!(pair_schedule(2), vec![(0, 1)]);
}

#[test]
fn four_bodies_in_loop_order() {
    assert_eq!(
        pair_schedule(4),
        vec![(0, 1), (0, 2), (0, 3), (1, 2), (1, 3), (2, 3)]
    );
}

#[test]
fn ten_bodies_make_forty_five_pairs_each_once() {
    let s = pair_schedule(10);
    assert_eq!(s.len(), 45);
    for i in 0..10usize {
        for j in (i + 1)..10usize {
            assert_eq!(s.iter().filter(|p| **p == (i, j)).count(), 1);
        }
    }
    for p in &s {
        assert!(p.0 < p.1 && p.1 < 10);
    }
}
