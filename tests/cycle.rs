use cmdseq::schedule::{checked_total, cycle};

#[test]
fn cycle_walks_schedule_of_three_two_one() {
    let r = vec![3, 2, 1];
    let commands: Vec<usize> = (0..6).map(|p| cycle(&r, p).0).collect();
    assert_eq!(commands, vec![0, 0, 0, 1, 1, 2]);
    assert_eq!(cycle(&r, 0), (0, 1));
    assert_eq!(cycle(&r, 3), (1, 4));
    assert_eq!(cycle(&r, 5), (2, 0));
}

#[test]
fn cycle_next_position_wraps_modulo_total() {
    let r = vec![2, 3];
    for p in 0..5 {
        assert_eq!(cycle(&r, p).1, (p + 1) % 5);
    }
}

#[test]
fn cycle_walk_from_zero_visits_each_command_its_count() {
    let r = vec![2, 0, 3, 1];
    let mut position = 0;
    let mut seen = Vec::new();
    for _ in 0..6 {
        let (c, next) = cycle(&r, position);
        seen.push(c);
        position = next;
    }
    assert_eq!(seen, vec![0, 0, 2, 2, 2, 3]);
    assert_eq!(position, 0);
}

#[test]
fn cycle_single_entry_always_zero() {
    assert_eq!(cycle(&vec![1], 0), (0, 0));
}

#[test]
fn cycle_skips_zero_counts() {
    assert_eq!(cycle(&vec![0, 2], 0), (1, 1));
    assert_eq!(cycle(&vec![0, 2], 1), (1, 0));
}

#[test]
fn cycle_trailing_zero_count_still_wraps() {
    assert_eq!(cycle(&vec![1, 0], 0), (0, 0));
}

#[test]
fn checked_total_sums_and_detects_overflow() {
    assert_eq!(checked_total(&vec![3, 2, 1]), Some(6));
    assert_eq!(checked_total(&vec![]), Some(0));
    assert_eq!(checked_total(&vec![usize::MAX, 0]), Some(usize::MAX));
    assert_eq!(checked_total(&vec![usize::MAX, 1]), None);
}
