use lsm_tpm::tty::{get_tty_of_pid, has_pty, stdin_link, TtyError};

#[test]
fn links_are_under_proc() {
    assert_eq!(stdin_link(1), Ok("/proc/1/fd/0".to_string()));
    assert_eq!(stdin_link(31337), Ok("/proc/31337/fd/0".to_string()));
    assert_eq!(stdin_link(0), Err(TtyError::InvalidPid));
    assert_ne!(stdin_link(11), stdin_link(1));
}

#[test]
fn a_terminal_is_a_device() {
    let path = |s: &str| Ok::<String, String>(s.to_string());
    assert_eq!(get_tty_of_pid(5, path("/dev/pts/3")), Ok("/dev/pts/3".to_string()));
    assert_eq!(get_tty_of_pid(5, path("/dev/null")), Ok("/dev/null".to_string()));
    assert_eq!(
        get_tty_of_pid(5, path("pipe:[42]")),
        Err(TtyError::NotATty("pipe:[42]".to_string()))
    );
    assert_eq!(
        get_tty_of_pid(5, Err("gone".to_string())),
        Err(TtyError::Unreadable("gone".to_string()))
    );
    assert_eq!(get_tty_of_pid(0, path("/dev/pts/3")), Err(TtyError::InvalidPid));
}

#[test]
fn errors_have_words() {
    assert_eq!(TtyError::InvalidPid.message(), "PID cannot be 0");
    assert_eq!(TtyError::NotATty("x".to_string()).message(), "Invalid TTY path: x");
    assert_eq!(TtyError::Unreadable("gone".to_string()).message(), "gone");
}

#[test]
fn only_pseudo_terminals_count() {
    assert!(has_pty(5, Ok("/dev/pts/0".to_string())));
    assert!(!has_pty(5, Ok("/dev/tty1".to_string())));
    assert!(!has_pty(5, Ok("/dev/pts".to_string())));
    assert!(!has_pty(5, Ok("/tmp/dev/pts/0".to_string())));
    assert!(!has_pty(5, Err("gone".to_string())));
    assert!(!has_pty(0, Ok("/dev/pts/0".to_string())));
}
