use sysmon_extract::store::{sequence_text, store_key, KeySequence};

#[test]
fn sequence_is_padded_to_five_digits() {
    assert_eq!(sequence_text(0), "00000");
    assert_eq!(sequence_text(7), "00007");
    assert_eq!(sequence_text(10), "00010");
    assert_eq!(sequence_text(42), "00042");
    assert_eq!(sequence_text(999), "00999");
    assert_eq!(sequence_text(1000), "01000");
    assert_eq!(sequence_text(9999), "09999");
    assert_eq!(sequence_text(10000), "10000");
    assert_eq!(sequence_text(99999), "99999");
}

#[test]
fn sequence_with_more_than_five_digits_is_written_in_full() {
    assert_eq!(sequence_text(100000), "100000");
    assert_eq!(sequence_text(1234567), "1234567");
    assert_eq!(sequence_text(u32::MAX), "4294967295");
}

#[test]
fn sequence_text_agrees_with_std_formatting() {
    let mut n: u32 = 0;
    while n < 120000 {
        assert_eq!(sequence_text(n), format!("{:05}", n));
        n += 1;
    }
    for n in [u32::MAX, u32::MAX - 1, 1 << 31, 999_999_999, 1_000_000_000] {
        assert_eq!(sequence_text(n), format!("{:05}", n));
    }
}

#[test]
fn key_is_action_underscore_time_sequence() {
    assert_eq!(
        store_key("Registry value set", "2023-08-07 03:00:00.000", 0),
        "Registry value set_2023-08-07 03:00:00.00000000"
    );
    assert_eq!(
        store_key("Process Create", "2023-08-07 03:00:00.123", 12),
        "Process Create_2023-08-07 03:00:00.12300012"
    );
    assert_eq!(store_key("", "", 3), "_00003");
}

#[test]
fn numbering_starts_at_zero() {
    let state = KeySequence::new();
    assert_eq!(state.previous_time, "");
    assert_eq!(state.counter, 0);
}

#[test]
fn counter_resets_when_the_timestamp_changes() {
    let mut state = KeySequence::new();
    let keys: Vec<String> = ["t1", "t1", "t1", "t2", "t2", "t1"]
        .iter()
        .map(|t| state.next_key("A", t, t).unwrap())
        .collect();
    assert_eq!(
        keys,
        vec!["A_t100000", "A_t100001", "A_t100002", "A_t200000", "A_t200001", "A_t100000"]
    );
    assert_eq!(state.previous_time, "t1");
    assert_eq!(state.counter, 1);
}

#[test]
fn rows_are_compared_by_time_and_keyed_by_formatted_time() {
    let mut state = KeySequence::new();
    assert_eq!(
        state.next_key("A", "2023-08-07 03:00:00 UTC", "2023-08-07 03:00:00.000"),
        Some("A_2023-08-07 03:00:00.00000000".to_string())
    );
    assert_eq!(
        state.next_key("B", "2023-08-07 03:00:00 UTC", "other"),
        Some("B_other00001".to_string())
    );
    assert_eq!(state.previous_time, "2023-08-07 03:00:00 UTC");
    assert_eq!(state.counter, 2);
}

#[test]
fn first_row_with_an_empty_timestamp_continues_the_count() {
    let mut state = KeySequence::new();
    assert_eq!(state.next_key("A", "", "f"), Some("A_f00000".to_string()));
    assert_eq!(state.next_key("A", "", "f"), Some("A_f00001".to_string()));
}

#[test]
fn exhausted_counter_gives_no_key_and_changes_nothing() {
    let mut state = KeySequence { previous_time: "t".to_string(), counter: u32::MAX };
    assert_eq!(state.next_key("A", "t", "t"), None);
    assert_eq!(state, KeySequence { previous_time: "t".to_string(), counter: u32::MAX });
    assert_eq!(state.next_key("A", "u", "u"), Some("A_u00000".to_string()));
    assert_eq!(state, KeySequence { previous_time: "u".to_string(), counter: 1 });
}

#[test]
fn last_number_before_exhaustion_is_given() {
    let mut state = KeySequence { previous_time: "t".to_string(), counter: u32::MAX - 1 };
    assert_eq!(state.next_key("A", "t", "t"), Some("A_t4294967294".to_string()));
    assert_eq!(state.counter, u32::MAX);
}
