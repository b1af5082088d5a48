use ferromon::history::{History, Trend, HISTORY_CAPACITY};

fn history_of(values: &[u64]) -> History {
    let mut history = History::new();
    for v in values {
        history.push(*v);
    }
    history
}

#[test]
fn new_history_is_empty() {
    let history = History::new();
    assert_eq!(history.len(), 0);
    assert_eq!(history.samples(), Vec::<u64>::new());
    assert_eq!(history.get(0), None);
    assert_eq!(History::default().len(), 0);
}

#[test]
fn capacity_is_120() {
    assert_eq!(HISTORY_CAPACITY, 120);
}

#[test]
fn pushing_exactly_capacity_keeps_all_in_order() {
    let values: Vec<u64> = (0..120).collect();
    let history = history_of(&values);
    assert_eq!(history.len(), 120);
    assert_eq!(history.samples(), values);
}

#[test]
fn pushing_more_than_capacity_drops_oldest_first() {
    let values: Vec<u64> = (0..125).collect();
    let history = history_of(&values);
    assert_eq!(history.len(), 120);
    let expected: Vec<u64> = (5..125).collect();
    assert_eq!(history.samples(), expected);
    assert_eq!(history.get(0), Some(5));
    assert_eq!(history.get(119), Some(124));
    assert_eq!(history.get(120), None);
}

#[test]
fn pushing_many_more_than_capacity_keeps_the_newest() {
    let values: Vec<u64> = (0..1000).map(|v| v * 3).collect();
    let history = history_of(&values);
    assert_eq!(history.len(), 120);
    assert_eq!(history.samples(), values[880..].to_vec());
}

#[test]
fn one_push_over_capacity_drops_one() {
    let mut history = history_of(&(0..120).collect::<Vec<u64>>());
    history.push(7);
    let mut expected: Vec<u64> = (1..120).collect();
    expected.push(7);
    assert_eq!(history.samples(), expected);
}

#[test]
fn trend_warming_up_below_four_samples() {
    assert_eq!(history_of(&[]).trend(), Trend::WarmingUp);
    assert_eq!(history_of(&[1]).trend(), Trend::WarmingUp);
    assert_eq!(history_of(&[1, 2, 3]).trend(), Trend::WarmingUp);
    assert_eq!(history_of(&[1, 2, 3]).trend().label(), "warming up");
}

#[test]
fn trend_increasing() {
    let history = history_of(&[0, 0, 0, 0, 0, 10]);
    assert_eq!(history.trend(), Trend::Increasing);
    assert_eq!(history.trend().label(), "increasing");
}

#[test]
fn trend_decreasing() {
    let history = history_of(&[10, 10, 10, 10, 10, 0]);
    assert_eq!(history.trend(), Trend::Decreasing);
    assert_eq!(history.trend().label(), "decreasing");
}

#[test]
fn trend_stable_for_constant_samples() {
    for len in 4..130usize {
        let history = history_of(&vec![42u64; len]);
        assert_eq!(history.trend(), Trend::Stable);
        assert_eq!(history.trend().label(), "stable");
    }
}

#[test]
fn trend_compares_with_the_sample_five_back() {
    // The sample five back is 9; the ones between do not count.
    assert_eq!(history_of(&[1, 9, 0, 0, 0, 0, 9]).trend(), Trend::Stable);
    assert_eq!(history_of(&[50, 9, 0, 0, 0, 0, 10]).trend(), Trend::Increasing);
    assert_eq!(history_of(&[0, 9, 100, 100, 100, 100, 8]).trend(), Trend::Decreasing);
}

#[test]
fn trend_of_a_short_history_compares_with_the_oldest() {
    assert_eq!(history_of(&[1, 5, 5, 2]).trend(), Trend::Increasing);
    assert_eq!(history_of(&[3, 0, 0, 0, 2]).trend(), Trend::Decreasing);
    assert_eq!(history_of(&[3, 0, 0, 3]).trend(), Trend::Stable);
}

#[test]
fn rising_needs_six_samples() {
    assert!(!history_of(&[0, 0, 0, 0, 10]).is_rising());
    assert!(history_of(&[0, 0, 0, 0, 0, 10]).is_rising());
    assert!(history_of(&[5, 0, 0, 0, 0, 0, 10]).is_rising());
}

#[test]
fn rising_needs_a_newest_sample_above_the_older_one() {
    assert!(!history_of(&[10, 10, 10, 10, 10, 10]).is_rising());
    assert!(!history_of(&[10, 10, 10, 10, 10, 0]).is_rising());
    assert!(!history_of(&[0, 0, 0, 0, 0, 0]).is_rising());
    assert!(history_of(&[9, 100, 100, 100, 100, 10]).is_rising());
}
