use tcp_optimiser::liveness::{pid_from_text, runs_daemon, runs_restore};

#[test]
fn pid_file_content_is_trimmed_and_parsed() {
    assert_eq!(pid_from_text("1234\n"), Some(1234));
    assert_eq!(pid_from_text(" 42 "), Some(42));
    assert_eq!(pid_from_text("abc"), None);
    assert_eq!(pid_from_text(""), None);
}

#[test]
fn command_line_arguments_identify_the_process() {
    assert!(runs_daemon(b"/data/adb/modules/tcp_optimiser/bin/tcp_optimiser\0daemon\0"));
    assert!(!runs_daemon(b"/system/bin/sh\0-c\0sleep\0"));
    assert!(runs_restore(b"tcp_optimiser\0restore-checkpoint\0"));
    assert!(!runs_restore(b"tcp_optimiser\0restore-checkpoints\0"));
    assert!(!runs_restore(b""));
}
