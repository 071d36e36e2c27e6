use lsm_tpm::reauth::{Action, Outcome, Phase, Reauth, ReauthError, Signal};
use lsm_tpm::tty::TtyError;

const PID: u32 = 4242;

fn drive(reauth: Reauth, outcomes: Vec<Outcome>) -> (Vec<Action>, Reauth) {
    let mut reauth = reauth;
    let mut actions = Vec::new();
    for outcome in outcomes {
        actions.push(reauth.action());
        reauth = reauth.step(outcome);
    }
    (actions, reauth)
}

fn on_tty() -> Reauth {
    Reauth::run_2fa(PID, Ok("/dev/pts/3".to_string()))
}

fn send(signal: Signal) -> Action {
    Action::Send { pid: PID, signal }
}

fn failed() -> Outcome {
    Outcome::Failed("no".to_string())
}

#[test]
fn a_passed_challenge_freezes_asks_and_resumes() {
    let (actions, reauth) = drive(
        on_tty(),
        vec![Outcome::Done, Outcome::Done, Outcome::Done, Outcome::Done, Outcome::Done],
    );
    assert_eq!(
        actions,
        vec![
            send(Signal::Stop),
            Action::OpenTty("/dev/pts/3".to_string()),
            Action::DuplicateTty,
            Action::RunAuthenticator {
                program: "/usr/local/bin/tpm_auth".to_string(),
                args: vec!["--reauthenticate".to_string(), "4242".to_string()],
            },
            send(Signal::Continue),
        ]
    );
    assert_eq!(reauth.action(), Action::Finish);
    assert_eq!(reauth.phase, Phase::Finished { result: Ok(()) });
}

#[test]
fn a_process_without_a_terminal_is_not_asked() {
    let cases = [
        (Err("gone".to_string()), TtyError::Unreadable("gone".to_string()), "gone"),
        (
            Ok("pipe:[1]".to_string()),
            TtyError::NotATty("pipe:[1]".to_string()),
            "Invalid TTY path: pipe:[1]",
        ),
    ];
    for (target, reason, words) in cases {
        let (actions, reauth) = drive(Reauth::run_2fa(PID, target), vec![Outcome::Done]);
        assert_eq!(actions, vec![send(Signal::Continue)]);
        let error = ReauthError::NoTty(reason);
        assert_eq!(error.message(), words);
        assert_eq!(reauth.phase, Phase::Finished { result: Err(error) });
    }
}

#[test]
fn process_zero_is_never_frozen() {
    let (actions, reauth) =
        drive(Reauth::run_2fa(0, Ok("/dev/pts/3".to_string())), vec![Outcome::Done]);
    assert_eq!(actions, vec![Action::Send { pid: 0, signal: Signal::Continue }]);
    let error = ReauthError::NoTty(TtyError::InvalidPid);
    assert_eq!(error.message(), "PID cannot be 0");
    assert_eq!(reauth.phase, Phase::Finished { result: Err(error) });
}

#[test]
fn a_run_has_sent_its_signals_when_it_is_over() {
    let rejected = || Outcome::Rejected("r".to_string());
    let done = || Outcome::Done;
    let both = vec![Signal::Stop, Signal::Continue];
    let cases = vec![
        (vec![done(), failed()], vec![Signal::Stop]),
        (vec![done(), done(), failed(), done()], both.clone()),
        (vec![done(), done(), done(), failed()], vec![Signal::Stop]),
        (vec![done(), done(), done(), rejected(), done()], both.clone()),
        (vec![done(), done(), done(), done(), done()], both),
    ];
    for (outcomes, expected) in cases {
        let (actions, reauth) = drive(on_tty(), outcomes);
        let sent: Vec<Signal> = actions
            .into_iter()
            .filter_map(|action| match action {
                Action::Send { signal, .. } => Some(signal),
                _ => None,
            })
            .collect();
        assert_eq!(sent, expected);
        assert!(matches!(reauth.phase, Phase::Recover { .. } | Phase::Finished { .. }));
    }
}

#[test]
fn a_terminal_that_cannot_be_opened_resumes_the_process() {
    let (actions, reauth) = drive(on_tty(), vec![Outcome::Done, failed(), Outcome::Done]);
    assert_eq!(actions[2], send(Signal::Continue));
    let error = ReauthError::Open("no".to_string());
    assert_eq!(error.message(), "no");
    assert_eq!(reauth.phase, Phase::Finished { result: Err(error) });
}

#[test]
fn a_terminal_that_cannot_be_duplicated_resumes_the_process() {
    let (actions, reauth) = drive(
        on_tty(),
        vec![Outcome::Done, Outcome::Done, failed(), Outcome::Done, Outcome::Done],
    );
    assert_eq!(actions[3..], [send(Signal::Continue), send(Signal::Continue)]);
    let error = ReauthError::Duplicate("no".to_string());
    assert_eq!(error.message(), "no");
    assert_eq!(reauth.phase, Phase::Finished { result: Err(error) });
}

#[test]
fn an_authenticator_that_does_not_run_resumes_the_process() {
    let (actions, reauth) = drive(
        on_tty(),
        vec![Outcome::Done, Outcome::Done, Outcome::Done, failed(), Outcome::Done],
    );
    assert_eq!(actions[4..], [send(Signal::Continue)]);
    let error = ReauthError::Spawn("no".to_string());
    assert_eq!(error.message(), "no");
    assert_eq!(reauth.phase, Phase::Finished { result: Err(error) });
}

#[test]
fn a_rejected_user_resumes_the_process() {
    let rejected = Outcome::Rejected("exit status: 1".to_string());
    let (actions, reauth) = drive(
        on_tty(),
        vec![
            Outcome::Done,
            Outcome::Done,
            Outcome::Done,
            rejected,
            Outcome::Done,
            Outcome::Done,
        ],
    );
    assert_eq!(actions[4..], [send(Signal::Continue), send(Signal::Continue)]);
    let error = ReauthError::Rejected("exit status: 1".to_string());
    assert_eq!(error.message(), "2FA failed: exit status: 1");
    assert_eq!(reauth.phase, Phase::Finished { result: Err(error) });
}

#[test]
fn no_course_of_a_challenge_leaves_the_process_frozen() {
    for code in 0..729u32 {
        let mut rest = code;
        let accepted = code / 3 % 27 == 0;
        let mut reauth = on_tty();
        let mut frozen = false;
        for _ in 0..6 {
            match reauth.action() {
                Action::Send { signal, .. } => frozen = signal == Signal::Stop,
                Action::Finish => {}
                _ => assert!(frozen),
            }
            let outcome = match rest % 3 {
                0 => Outcome::Done,
                1 => Outcome::Rejected("r".to_string()),
                _ => Outcome::Failed("f".to_string()),
            };
            rest /= 3;
            reauth = reauth.step(outcome);
        }
        assert!(!frozen);
        assert_eq!(reauth.action(), Action::Finish);
        assert_eq!(reauth.phase == Phase::Finished { result: Ok(()) }, accepted);
    }
}
