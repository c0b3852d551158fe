use gem5conv::cycle_bounds::CycleInstrBounds;

#[test]
fn new_index_answers_every_cycle_with_the_empty_range() {
    let b = CycleInstrBounds::new();
    assert_eq!(b.inst_range(0), 0..0);
    assert_eq!(b.inst_range(17), 0..0);
}

#[test]
fn add_claims_each_cycle_of_the_window() {
    let mut b = CycleInstrBounds::new();
    b.add(2, 4, 7);
    assert_eq!(b.inst_range(2), 7..8);
    assert_eq!(b.inst_range(3), 7..8);
    assert_eq!(b.inst_range(4), 7..8);
}

#[test]
fn cycles_reached_but_not_claimed_are_empty() {
    let mut b = CycleInstrBounds::new();
    b.add(2, 4, 7);
    assert!(b.inst_range(0).is_empty());
    assert!(b.inst_range(1).is_empty());
    assert_eq!(b.inst_range(1), 0..0);
}

#[test]
fn cycles_beyond_the_last_one_are_empty() {
    let mut b = CycleInstrBounds::new();
    b.add(2, 4, 7);
    assert_eq!(b.inst_range(5), 0..0);
    assert_eq!(b.inst_range(usize::MAX), 0..0);
}

#[test]
fn add_widens_and_never_narrows() {
    let mut b = CycleInstrBounds::new();
    b.add(1, 3, 5);
    b.add(2, 6, 2);
    b.add(3, 3, 9);
    b.add(3, 3, 4);
    assert_eq!(b.inst_range(1), 5..6);
    assert_eq!(b.inst_range(2), 2..6);
    assert_eq!(b.inst_range(3), 2..10);
    assert_eq!(b.inst_range(4), 2..3);
    assert_eq!(b.inst_range(6), 2..3);
    assert_eq!(b.inst_range(7), 0..0);
}

#[test]
fn add_twice_is_the_same_as_once() {
    let mut b = CycleInstrBounds::new();
    b.add(0, 2, 3);
    b.add(0, 2, 3);
    assert_eq!(b.inst_range(0), 3..4);
    assert_eq!(b.inst_range(2), 3..4);
}

#[test]
fn add_with_an_empty_window_only_grows_the_index() {
    let mut b = CycleInstrBounds::new();
    b.add(5, 3, 1);
    assert_eq!(b.inst_range(3), 0..0);
    assert_eq!(b.inst_range(5), 0..0);
}

#[test]
fn ranges_stay_within_the_recorded_positions() {
    let mut b = CycleInstrBounds::new();
    let n: usize = 6;
    for i in 0..n {
        b.add(i, i + 3, i);
    }
    for c in 0..12 {
        let r = b.inst_range(c);
        assert!(r.start <= r.end);
        assert!(r.end <= n);
    }
    assert_eq!(b.inst_range(3), 0..4);
    assert_eq!(b.inst_range(8), 5..6);
    assert_eq!(b.inst_range(9), 0..0);
}
