use hline::history::Entry;
use hline::sort::{apply_sort, SortMode};

fn sample_entries() -> Vec<Entry> {
    vec![
        Entry { id: 0, cmd: "git status".to_string(), timestamp: None, duration_secs: None },
        Entry { id: 1, cmd: "ls".to_string(), timestamp: None, duration_secs: None },
        Entry { id: 2, cmd: "Cargo test".to_string(), timestamp: None, duration_secs: None },
    ]
}

#[test]
fn sorts_by_recency_default_order() {
    let entries = sample_entries();
    let mut idx = vec![2, 1, 0];
    apply_sort(&mut idx, &entries, SortMode::Recency, false);
    assert_eq!(idx, vec![0, 1, 2]);
}

#[test]
fn sorts_alpha_case_insensitive() {
    let entries = sample_entries();
    let mut idx = vec![0, 1, 2];
    apply_sort(&mut idx, &entries, SortMode::Alpha, false);
    assert_eq!(idx, vec![2, 0, 1]);
}

#[test]
fn sorts_by_length_reverse() {
    let entries = sample_entries();
    let mut idx = vec![0, 1, 2];
    apply_sort(&mut idx, &entries, SortMode::Length, true);
    assert_eq!(idx, vec![2, 0, 1]);
}

#[test]
fn reversed_order_is_the_exact_reverse() {
    let entries = sample_entries();
    for mode in [SortMode::Recency, SortMode::Alpha, SortMode::Length] {
        let mut up = vec![1, 2, 0];
        let mut down = vec![0, 2, 1];
        apply_sort(&mut up, &entries, mode, false);
        apply_sort(&mut down, &entries, mode, true);
        down.reverse();
        assert_eq!(up, down);
    }
}

#[test]
fn alpha_ties_fall_back_to_bytes_then_index() {
    let entries = vec![
        Entry { id: 0, cmd: "abc".to_string(), timestamp: None, duration_secs: None },
        Entry { id: 1, cmd: "ABC".to_string(), timestamp: None, duration_secs: None },
        Entry { id: 2, cmd: "abc".to_string(), timestamp: None, duration_secs: None },
        Entry { id: 3, cmd: "ab".to_string(), timestamp: None, duration_secs: None },
    ];
    let mut idx = vec![0, 1, 2, 3];
    apply_sort(&mut idx, &entries, SortMode::Alpha, false);
    assert_eq!(idx, vec![3, 1, 0, 2]);
}

#[test]
fn sort_modes_cycle_and_label() {
    assert_eq!(SortMode::Recency.cycle(), SortMode::Alpha);
    assert_eq!(SortMode::Alpha.cycle(), SortMode::Length);
    assert_eq!(SortMode::Length.cycle(), SortMode::Timestamp);
    assert_eq!(SortMode::Timestamp.cycle(), SortMode::Recency);
    assert_eq!(SortMode::Alpha.label(), "Alpha");
    assert_eq!(SortMode::Timestamp.label(), "Timestamp");
}

#[test]
fn timestamp_sort_is_newest_first_with_untimed_last() {
    let entries = vec![
        Entry { id: 0, cmd: "a".to_string(), timestamp: Some(10), duration_secs: None },
        Entry { id: 1, cmd: "b".to_string(), timestamp: None, duration_secs: None },
        Entry { id: 2, cmd: "c".to_string(), timestamp: Some(30), duration_secs: None },
        Entry { id: 3, cmd: "d".to_string(), timestamp: Some(10), duration_secs: None },
        Entry { id: 4, cmd: "e".to_string(), timestamp: None, duration_secs: None },
    ];
    let mut idx = vec![0, 1, 2, 3, 4];
    apply_sort(&mut idx, &entries, SortMode::Timestamp, false);
    assert_eq!(idx, vec![2, 0, 3, 1, 4]);
    apply_sort(&mut idx, &entries, SortMode::Timestamp, true);
    assert_eq!(idx, vec![4, 1, 3, 0, 2]);
}
