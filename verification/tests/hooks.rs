use lsm_tpm::event::SecurityEvent;
use lsm_tpm::exec_hook::{bprm_check_security, consults_lists, shell_path, ExecRequest};
use lsm_tpm::file_hook::{asks_to_write, file_permission, FileRequest, MAY_WRITE};
use lsm_tpm::policy::{
    blacklist_key, cgroup_kind, path_blacklisted, process_id, startup_entries, thread_id,
    CGROUP_INTERACTIVE, CGROUP_INTERACTIVE_PROCS, CGROUP_NON_INTERACTIVE,
};
use lsm_tpm::ssh_context::{AuthenticationType, ContextAction, SshContext, SshContextService};

const DAEMON: u32 = 77;

fn write_by(process: u64, entry: Option<u32>) -> FileRequest {
    FileRequest { mask: MAY_WRITE, entry, pid_tgid: process << 32 | 5, daemon: Some(DAEMON) }
}

fn exec_in<'a>(entry: Option<u32>, path: &'a [u8], paths: &'a [[u8; 64]]) -> ExecRequest<'a> {
    ExecRequest {
        filename: Ok(path),
        entry,
        uid: Some(1000),
        pid_tgid: 0x0000_0009_0000_000a,
        allowed: false,
        paths,
        name_listed: Ok(false),
    }
}

#[test]
fn only_the_daemon_writes_to_the_entry_file() {
    let procs = Some(CGROUP_INTERACTIVE_PROCS);
    assert_eq!(file_permission(&write_by(77, procs)), 0);
    assert_eq!(file_permission(&write_by(78, procs)), -1);
    // The thread half does not count.
    assert_eq!(file_permission(&write_by(5, procs)), -1);
    // More bits than the one for writing may be set.
    assert_eq!(file_permission(&FileRequest { mask: 0xa, ..write_by(78, procs) }), -1);
}

#[test]
fn nobody_writes_to_the_entry_file_without_a_daemon() {
    let request = write_by(77, Some(CGROUP_INTERACTIVE_PROCS));
    assert_eq!(file_permission(&FileRequest { daemon: None, ..request }), -1);
    assert_eq!(file_permission(&FileRequest { daemon: Some(0), ..request }), -1);
}

#[test]
fn other_accesses_are_allowed() {
    let request = write_by(78, Some(CGROUP_INTERACTIVE_PROCS));
    assert_eq!(file_permission(&FileRequest { mask: 4, ..request }), 0);
    assert_eq!(file_permission(&FileRequest { mask: 0, ..request }), 0);
    assert_eq!(file_permission(&write_by(78, None)), 0);
    assert_eq!(file_permission(&write_by(78, Some(CGROUP_INTERACTIVE))), 0);
    assert_eq!(file_permission(&write_by(78, Some(CGROUP_NON_INTERACTIVE))), 0);
}

#[test]
fn identifiers_are_split_in_halves() {
    assert_eq!(process_id(0x0000_0009_8000_000a), 9);
    assert_eq!(thread_id(0x0000_0009_8000_000a), 0x8000_000a);
    assert_eq!(process_id(u64::MAX), u32::MAX);
    assert_eq!(thread_id(u64::MAX), u32::MAX);
}

#[test]
fn startup_registers_groups_and_entry_file() {
    assert_eq!(startup_entries(10, 20, 30), vec![(10, 1), (20, 2), (30, 3)]);
    assert_eq!(cgroup_kind(Some(2)), 2);
    assert_eq!(cgroup_kind(None), 0);
}

#[test]
fn keys_are_padded_and_end_in_a_zero() {
    let key = blacklist_key(b"nc");
    assert_eq!(&key[..2], b"nc");
    assert!(key[2..].iter().all(|&b| b == 0));
    let long = blacklist_key(&[b'x'; 70]);
    assert_eq!(&long[..63], &[b'x'; 63]);
    assert_eq!(long[63], 0);
    assert_ne!(blacklist_key(b"nc"), blacklist_key(b"ncat"));
}

#[test]
fn path_prefixes_cover_what_starts_with_them() {
    let entries = [blacklist_key(b""), blacklist_key(b"/tmp/"), blacklist_key(b"/opt/x")];
    assert!(path_blacklisted(&entries, b"/tmp/tool"));
    assert!(path_blacklisted(&entries, b"/opt/xyz"));
    assert!(!path_blacklisted(&entries, b"/tmp"));
    assert!(!path_blacklisted(&entries, b"/usr/tmp/tool"));
    assert!(!path_blacklisted(&[blacklist_key(b"")], b"/tmp/tool"));
    assert!(!path_blacklisted(&[], b"/tmp/tool"));
}

#[test]
fn four_paths_are_shells() {
    for path in ["/bin/bash", "/bin/sh", "/usr/bin/bash", "/usr/bin/sh"] {
        assert!(shell_path(path.as_bytes()));
    }
    for path in ["/bin/zsh", "bash", "/bin/bash2", "/bin/bas", ""] {
        assert!(!shell_path(path.as_bytes()));
    }
}

#[test]
fn an_exec_is_reported() {
    let decision = bprm_check_security(Some(&exec_in(Some(1), b"/bin/sh", &[])));
    let mut filename = [0u8; 32];
    filename[..7].copy_from_slice(b"/bin/sh");
    let event = SecurityEvent {
        _filename: filename,
        _uid: 1000,
        _pid: 10,
        _cgroup_type: 1,
        _is_shell: true,
    };
    assert_eq!(decision.event, Some(event));
    assert_eq!(decision.code, 0);
    assert!(!decision.allowance_used);
}

#[test]
fn a_long_path_is_cut_in_the_report() {
    let path = [b'p'; 40];
    let decision = bprm_check_security(Some(&exec_in(None, &path, &[])));
    let event = decision.event.unwrap();
    assert_eq!(event._filename, [b'p'; 32]);
    assert_eq!(event._cgroup_type, 0);
    assert!(!event._is_shell);
}

#[test]
fn nothing_is_decided_without_program_or_credentials() {
    let decision = bprm_check_security(None);
    assert_eq!((decision.event, decision.allowance_used, decision.code), (None, false, 0));
    let request = ExecRequest { uid: None, name_listed: Ok(true), ..exec_in(Some(2), b"/x", &[]) };
    let decision = bprm_check_security(Some(&request));
    assert_eq!((decision.event, decision.allowance_used, decision.code), (None, false, 0));
}

#[test]
fn a_failed_read_fails_the_exec() {
    let request = ExecRequest { filename: Err(-14), ..exec_in(Some(2), b"/x", &[]) };
    let decision = bprm_check_security(Some(&request));
    assert_eq!((decision.event, decision.code), (None, -14));

    let request = ExecRequest { name_listed: Err(-14), ..exec_in(Some(2), b"/x", &[]) };
    let decision = bprm_check_security(Some(&request));
    assert!(decision.event.is_some());
    assert_eq!(decision.code, -14);

    // The name does not matter outside the non-interactive group.
    let request = ExecRequest { name_listed: Err(-14), ..exec_in(Some(1), b"/x", &[]) };
    assert_eq!(bprm_check_security(Some(&request)).code, 0);

    let request = ExecRequest { filename: Err(0x1_ffff_fff2), ..exec_in(None, b"/x", &[]) };
    assert_eq!(bprm_check_security(Some(&request)).code, -14);
}

#[test]
fn listed_execs_are_denied_in_the_non_interactive_group_only() {
    let paths = [blacklist_key(b"/tmp/")];
    for (entry, code) in [(Some(2), -1), (Some(1), 0), (Some(3), 0), (None, 0)] {
        let listed = ExecRequest { name_listed: Ok(true), ..exec_in(entry, b"/bin/nc", &paths) };
        let decision = bprm_check_security(Some(&listed));
        assert_eq!(decision.code, code);
        assert!(decision.event.is_some());
        let under = bprm_check_security(Some(&exec_in(entry, b"/tmp/tool", &paths)));
        assert_eq!(under.code, code);
        assert!(under.event.is_some());
        assert_eq!(bprm_check_security(Some(&exec_in(entry, b"/bin/ls", &paths))).code, 0);
    }
}

#[test]
fn a_listed_path_counts_before_an_unreadable_name() {
    let paths = [blacklist_key(b"/tmp/")];
    let request = ExecRequest { name_listed: Err(-14), ..exec_in(Some(2), b"/tmp/t", &paths) };
    assert_eq!(bprm_check_security(Some(&request)).code, -1);
}

#[test]
fn an_allowance_passes_the_lists_once() {
    let mut allowances = vec![10u32, 11];
    let mut codes = Vec::new();
    for _ in 0..2 {
        let mut request = ExecRequest { name_listed: Ok(true), ..exec_in(Some(2), b"/x", &[]) };
        request.allowed = allowances.contains(&thread_id(request.pid_tgid));
        let decision = bprm_check_security(Some(&request));
        if decision.allowance_used {
            allowances.retain(|&pid| pid != thread_id(request.pid_tgid));
        }
        codes.push(decision.code);
    }
    assert_eq!(codes, [0, -1]);
    assert_eq!(allowances, [11]);
}

#[test]
fn what_a_message_grants_holds_for_one_exec() {
    let message = SshContext { auth: Some(AuthenticationType::VscodeSession), pid: 10 };
    let ContextAction::AllowExec(granted) = SshContextService::default().context_send(&message)
    else {
        panic!("nothing was granted")
    };
    let mut allowances = vec![granted];
    let mut codes = Vec::new();
    for pid_tgid in [11u64, 10, 12, 10] {
        let mut request = ExecRequest { name_listed: Ok(true), ..exec_in(Some(2), b"/x", &[]) };
        request.pid_tgid = pid_tgid;
        request.allowed = allowances.contains(&thread_id(pid_tgid));
        let decision = bprm_check_security(Some(&request));
        if decision.allowance_used {
            allowances.retain(|&thread| thread != thread_id(pid_tgid));
        }
        codes.push(decision.code);
    }
    assert_eq!(codes, [-1, 0, -1, -1]);
}

#[test]
fn an_allowance_is_kept_outside_the_non_interactive_group() {
    let request = ExecRequest { allowed: true, ..exec_in(Some(1), b"/x", &[]) };
    assert!(!bprm_check_security(Some(&request)).allowance_used);
}

#[test]
fn after_startup_only_the_entry_file_is_guarded() {
    let entries = startup_entries(10, 20, 30);
    for inode in [10u64, 20, 30, 40] {
        let entry = entries.iter().find(|e| e.0 == inode).map(|e| e.1);
        let stranger = file_permission(&write_by(78, entry));
        assert_eq!(stranger, if inode == 30 { -1 } else { 0 });
        assert_eq!(file_permission(&write_by(77, entry)), 0);
    }
}

#[test]
fn lists_are_consulted_in_the_non_interactive_group_only() {
    assert!(consults_lists(&Ok(b"/x"), Some(2), Some(0)));
    assert!(!consults_lists(&Ok(b"/x"), Some(1), Some(0)));
    assert!(!consults_lists(&Ok(b"/x"), None, Some(0)));
    assert!(!consults_lists(&Ok(b"/x"), Some(2), None));
    assert!(!consults_lists(&Err(-14), Some(2), Some(0)));
    let listed = |listed| ExecRequest {
        name_listed: Ok(listed),
        allowed: listed,
        ..exec_in(Some(1), b"/x", &[])
    };
    assert_eq!(bprm_check_security(Some(&listed(true))), bprm_check_security(Some(&listed(false))));
}

#[test]
fn one_bit_asks_for_writing() {
    assert!(asks_to_write(2));
    assert!(asks_to_write(-1));
    assert!(!asks_to_write(4));
    assert!(!asks_to_write(0));
}
