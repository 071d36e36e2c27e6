use bytes::BytesMut;
use lsm_tpm::event::SecurityEvent;
use lsm_tpm::exec_hook::{bprm_check_security, ExecRequest};
use lsm_tpm::monitor::{
    handle_record, handle_security_event, reauth_target, EventDecision, ReadOutcome, StopReason,
    Watch, WatchAction, WatchInput, MAX_BUFFERS,
};
use lsm_tpm::octets::ByteOrder;
use lsm_tpm::poll::PollStep;

fn event(path: &[u8], cgroup_type: u32, is_shell: bool) -> SecurityEvent {
    let mut filename = [0u8; 32];
    filename[..path.len()].copy_from_slice(path);
    SecurityEvent {
        _filename: filename,
        _uid: 1000,
        _pid: 99,
        _cgroup_type: cgroup_type,
        _is_shell: is_shell,
    }
}

fn decide(event: SecurityEvent) -> EventDecision {
    handle_record(&event.to_record(ByteOrder::Little), ByteOrder::Little)
}

#[test]
fn bash_in_the_non_interactive_group_is_inspected() {
    for path in ["/bin/bash", "/usr/bin/bash"] {
        let seen = event(path.as_bytes(), 2, true);
        assert_eq!(decide(seen), EventDecision::InspectTty(seen));
    }
}

#[test]
fn other_events_are_ignored() {
    for seen in [
        event(b"/bin/sh", 2, true),
        event(b"/bin/bash", 1, true),
        event(b"/bin/bash", 0, true),
        event(b"/bin/bash", 2, false),
        event(b"/bin/bash2", 2, true),
    ] {
        assert_eq!(decide(seen), EventDecision::Ignore(seen));
    }
}

#[test]
fn a_buffer_is_read_like_its_bytes() {
    let seen = event(b"/bin/bash", 2, true);
    let mut buffer = BytesMut::with_capacity(56);
    buffer.extend_from_slice(&seen.to_record(ByteOrder::Big));
    assert_eq!(handle_security_event(&buffer, ByteOrder::Big), EventDecision::InspectTty(seen));
    buffer.extend_from_slice(&[0, 0, 0, 0]);
    assert_eq!(handle_security_event(&buffer, ByteOrder::Big), EventDecision::InspectTty(seen));
    buffer.truncate(47);
    assert_eq!(handle_security_event(&buffer, ByteOrder::Big), EventDecision::Malformed);
    assert_eq!(
        handle_security_event(&BytesMut::new(), ByteOrder::Little),
        EventDecision::Malformed
    );
}

#[test]
fn a_pseudo_terminal_makes_a_target() {
    let pty = || Ok("/dev/pts/1".to_string());
    let bash = event(b"/bin/bash", 2, true);
    assert_eq!(reauth_target(&bash, pty()), Some(99));
    assert_eq!(reauth_target(&event(b"/bin/bash", 1, true), pty()), None);
    assert_eq!(reauth_target(&bash, Ok("/dev/null".to_string())), None);
    assert_eq!(reauth_target(&bash, Err("gone".to_string())), None);
    assert_eq!(reauth_target(&SecurityEvent { _pid: 0, ..bash }, pty()), None);
}

#[test]
fn what_the_hook_reports_the_daemon_notices() {
    let expected = [
        ("/bin/bash", Some(2), true),
        ("/usr/bin/bash", Some(2), true),
        ("/bin/sh", Some(2), false),
        ("/bin/bash", Some(1), false),
        ("/bin/bash", None, false),
        ("/a/very/long/path/that/goes/on/and/on/bash", Some(2), false),
    ];
    for (path, entry, noticed) in expected {
        let request = ExecRequest {
            filename: Ok(path.as_bytes()),
            entry,
            uid: Some(0),
            pid_tgid: 0x0000_0063_0000_0063,
            allowed: false,
            paths: &[],
            name_listed: Ok(true),
        };
        let sent = bprm_check_security(Some(&request)).event.unwrap();
        let decision = handle_record(&sent.to_record(ByteOrder::Big), ByteOrder::Big);
        assert_eq!(decision == EventDecision::InspectTty(sent), noticed);
        assert_eq!(sent._pid, 99);
    }
}

fn readable(indices: Vec<usize>) -> WatchInput {
    WatchInput::Polled(PollStep::Readable(indices))
}

fn read(read: usize) -> WatchInput {
    WatchInput::Read(ReadOutcome::Events { read, lost: 0 })
}

#[test]
fn buffers_are_drained_one_after_another() {
    let mut watch = Watch::new(4, MAX_BUFFERS);
    let steps = vec![
        (WatchAction::Wait, WatchInput::Polled(PollStep::Retry)),
        (WatchAction::Wait, readable(vec![3, 9, 1])),
        (WatchAction::Read { buffer: 3 }, WatchInput::Read(ReadOutcome::Events { read: 5, lost: 2 })),
        (WatchAction::Handle { buffer: 3, count: 5, lost: 2 }, WatchInput::Handled),
        (WatchAction::Read { buffer: 3 }, read(1)),
        (WatchAction::Handle { buffer: 3, count: 1, lost: 0 }, WatchInput::Handled),
        (WatchAction::Read { buffer: 3 }, read(0)),
        (WatchAction::Read { buffer: 1 }, WatchInput::Read(ReadOutcome::Failed)),
        (WatchAction::Wait, readable(vec![7])),
        (WatchAction::Wait, readable(vec![0])),
        (WatchAction::Read { buffer: 0 }, read(0)),
        (WatchAction::Wait, WatchInput::Polled(PollStep::Woken)),
        (WatchAction::Stop(StopReason::Woken), readable(vec![0])),
        (WatchAction::Stop(StopReason::Woken), WatchInput::Handled),
    ];
    for (action, input) in steps {
        assert_eq!(watch.action(), action);
        watch = watch.step(input);
    }
}

#[test]
fn no_more_is_handled_than_there_is_room_for() {
    let watch = Watch::new(1, MAX_BUFFERS).step(readable(vec![0])).step(read(100));
    assert_eq!(watch.action(), WatchAction::Handle { buffer: 0, count: 64, lost: 0 });
}

#[test]
fn a_failed_wait_ends_the_watch() {
    let watch = Watch::new(1, MAX_BUFFERS).step(WatchInput::Polled(PollStep::Failed(9)));
    assert_eq!(watch.action(), WatchAction::Stop(StopReason::WaitFailed(9)));
}

#[test]
fn outcomes_that_were_not_asked_for_change_nothing() {
    let watch = Watch::new(2, MAX_BUFFERS).step(read(3)).step(WatchInput::Handled);
    assert_eq!(watch.action(), WatchAction::Wait);
    let watch = watch.step(readable(vec![1])).step(WatchInput::Polled(PollStep::Woken));
    assert_eq!(watch.action(), WatchAction::Read { buffer: 1 });
}

#[test]
fn every_record_that_is_read_is_handled_in_order() {
    let mut watch = Watch::new(3, MAX_BUFFERS);
    let mut reads = vec![(2, 0), (64, 0), (0, 0), (7, 3), (0, 0), (1, 0), (0, 0)].into_iter();
    let mut delivered = Vec::new();
    let mut handled = Vec::new();
    let mut waits = 0;
    loop {
        let input = match watch.action() {
            WatchAction::Wait if waits == 0 => {
                waits = 1;
                readable(vec![2, 0, 1])
            }
            WatchAction::Wait => WatchInput::Polled(PollStep::Woken),
            WatchAction::Read { buffer } => {
                let (read, lost) = reads.next().unwrap();
                if read > 0 {
                    delivered.push((buffer, read, lost));
                }
                WatchInput::Read(ReadOutcome::Events { read, lost })
            }
            WatchAction::Handle { buffer, count, lost } => {
                handled.push((buffer, count, lost));
                WatchInput::Handled
            }
            WatchAction::Stop(_) => break,
        };
        watch = watch.step(input);
    }
    assert_eq!(handled, vec![(2, 2, 0), (2, 64, 0), (0, 7, 3), (1, 1, 0)]);
    assert_eq!(handled, delivered);
}
