use lsm_tpm::poll::{
    poll_buffers, Epoll, PollSetup, PollStep, SetupAction, WaitOutcome, WakeWrite,
    WAKE_EVENT_MARKER,
};

fn drive(buffers: Vec<i32>, replies: &[i32]) -> (Vec<SetupAction>, PollSetup) {
    let mut setup = poll_buffers(buffers);
    let mut actions = Vec::new();
    for &reply in replies {
        actions.push(setup.action());
        setup.step(reply);
    }
    (actions, setup)
}

#[test]
fn a_set_up_registers_everything() {
    let (actions, setup) = drive(vec![20, 21], &[7, 8, 0, 0, 0]);
    assert_eq!(
        actions,
        vec![
            SetupAction::CreateEpoll,
            SetupAction::CreateWake,
            SetupAction::Add { epfd: 7, fd: 8, token: WAKE_EVENT_MARKER },
            SetupAction::Add { epfd: 7, fd: 20, token: 0 },
            SetupAction::Add { epfd: 7, fd: 21, token: 1 },
        ]
    );
    let epoll = Epoll { epfd: 7, wake_fd: 8, num_buffers: 2 };
    assert_eq!(setup.action(), SetupAction::Done(epoll));
    assert_eq!(epoll.descriptors(), vec![7, 8]);
}

#[test]
fn a_set_up_needs_no_buffers_and_no_registered_wake_up() {
    let (_, setup) = drive(vec![], &[7, 8, -1]);
    assert_eq!(
        setup.action(),
        SetupAction::Done(Epoll { epfd: 7, wake_fd: 8, num_buffers: 0 })
    );
}

#[test]
fn a_failed_set_up_closes_what_it_opened() {
    let (_, setup) = drive(vec![20], &[-1]);
    assert_eq!(setup.action(), SetupAction::Fail);

    let (actions, setup) = drive(vec![20], &[7, -1, 0]);
    assert_eq!(actions[2], SetupAction::Close(7));
    assert_eq!(setup.action(), SetupAction::Fail);

    let (actions, setup) = drive(vec![20, 21], &[7, 8, 0, 0, -1, 0, 0]);
    assert_eq!(actions[5..], [SetupAction::Close(8), SetupAction::Close(7)]);
    assert_eq!(setup.action(), SetupAction::Fail);
}

#[test]
fn a_finished_set_up_stays_as_it_is() {
    let (_, setup) = drive(vec![], &[7, 8, 0, -1, 5]);
    assert_eq!(
        setup.action(),
        SetupAction::Done(Epoll { epfd: 7, wake_fd: 8, num_buffers: 0 })
    );
    let (_, setup) = drive(vec![], &[-1, 3, 4]);
    assert_eq!(setup.action(), SetupAction::Fail);
}

#[test]
fn waits_are_told_apart() {
    let epoll = Epoll { epfd: 7, wake_fd: 8, num_buffers: 4 };
    assert_eq!(epoll.poll_readable(WaitOutcome::Interrupted), PollStep::Retry);
    assert_eq!(epoll.poll_readable(WaitOutcome::Failed(22)), PollStep::Failed(22));
    assert_eq!(
        epoll.poll_readable(WaitOutcome::Ready(vec![3, 0])),
        PollStep::Readable(vec![3, 0])
    );
    assert_eq!(epoll.poll_readable(WaitOutcome::Ready(vec![])), PollStep::Readable(vec![]));
    assert_eq!(
        epoll.poll_readable(WaitOutcome::Ready(vec![3, WAKE_EVENT_MARKER, 0])),
        PollStep::Woken
    );
}

#[test]
fn waking_writes_one_to_the_wake_up_descriptor() {
    let epoll = Epoll { epfd: 7, wake_fd: 8, num_buffers: 4 };
    assert_eq!(epoll.wake(), WakeWrite { fd: 8, value: 1 });
}

#[test]
fn a_set_that_was_never_opened_closes_nothing() {
    assert_eq!(Epoll { epfd: -1, wake_fd: 8, num_buffers: 0 }.descriptors(), Vec::<i32>::new());
    assert_eq!(Epoll { epfd: 7, wake_fd: -1, num_buffers: 0 }.descriptors(), Vec::<i32>::new());
    assert_eq!(Epoll { epfd: 0, wake_fd: 1, num_buffers: 0 }.descriptors(), vec![0, 1]);
}

#[test]
fn the_marker_is_no_index() {
    assert_eq!(WAKE_EVENT_MARKER, usize::MAX as u64);
}

#[test]
fn a_wait_names_each_buffer_once() {
    let (actions, setup) = drive(vec![20, 21, 22], &[7, 8, 0, 0, 0, 0]);
    let SetupAction::Done(epoll) = setup.action() else { panic!("not ready") };
    let tokens: Vec<u64> = actions
        .iter()
        .filter_map(|action| match action {
            SetupAction::Add { token, .. } if *token != WAKE_EVENT_MARKER => Some(*token),
            _ => None,
        })
        .rev()
        .collect();
    assert_eq!(
        epoll.poll_readable(WaitOutcome::Ready(tokens)),
        PollStep::Readable(vec![2, 1, 0])
    );
}

#[test]
fn a_wake_up_is_not_used_up() {
    let epoll = Epoll { epfd: 7, wake_fd: 8, num_buffers: 2 };
    for tokens in [vec![WAKE_EVENT_MARKER], vec![WAKE_EVENT_MARKER, 1], vec![WAKE_EVENT_MARKER]] {
        assert_eq!(epoll.poll_readable(WaitOutcome::Ready(tokens)), PollStep::Woken);
    }
}
