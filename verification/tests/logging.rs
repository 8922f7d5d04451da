use tcp_optimiser::logging::{log_entry, rotate_log, timestamp};

#[test]
fn timestamp_formats_utc_calendar_time() {
    assert_eq!(timestamp(0), "1970-01-01 00:00:00");
    assert_eq!(timestamp(951_782_400), "2000-02-29 00:00:00");
    assert_eq!(timestamp(1_700_000_000), "2023-11-14 22:13:20");
}

#[test]
fn log_entry_has_timestamp_and_newline() {
    assert_eq!(log_entry(59, "Service started"), "1970-01-01 00:00:59 - Service started\n");
}

#[test]
fn rotation_keeps_latter_half_only_beyond_limit() {
    let short: String = (0..200).map(|i| format!("line {i}\n")).collect();
    assert_eq!(rotate_log(&short), None);
    let long: String = (0..201).map(|i| format!("line {i}\n")).collect();
    let rotated = rotate_log(&long).unwrap();
    let expected: String = (101..201).map(|i| format!("line {i}\n")).collect();
    assert_eq!(rotated, expected);
}

use tcp_optimiser::logging::debug_entry;

#[test]
fn debug_entry_names_the_process() {
    assert_eq!(debug_entry(0, 4321, "probe"), "1970-01-01 00:00:00 [PID:4321] probe\n");
}
