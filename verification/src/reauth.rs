//! The challenge of a process that opened a shell without the second factor.

use crate::text::{decimal, decimal_string};
use crate::tty::{get_tty_of_pid, tty_of, TtyError};
use vstd::prelude::*;
use vstd::string::*;

verus! {

/// The program that asks for the second factor.
pub const TPM_AUTH_PATH: &'static str = "/usr/local/bin/tpm_auth";

/// A signal that the challenge sends to the process.
#[derive(Debug, Clone, Copy, PartialEq, Eq, Structural)]
pub enum Signal {
    /// Freeze the process, so that it does not read from its terminal too.
    Stop,
    /// Let the process run on.
    Continue,
}

/// Why a challenge was not passed.
#[derive(Debug, PartialEq, Eq)]
pub enum ReauthError {
    /// The process has no terminal to ask on.
    NoTty(TtyError),
    /// The terminal could not be opened.
    Open(String),
    /// The terminal could not be duplicated for output.
    Duplicate(String),
    /// The authenticator could not be run.
    Spawn(String),
    /// The authenticator turned the user down, with how it exited.
    Rejected(String),
}

impl ReauthError {
    /// What the error says.
    pub open spec fn text(&self) -> Seq<char> {
        match *self {
            ReauthError::NoTty(error) => error.text(),
            ReauthError::Open(reason) => reason@,
            ReauthError::Duplicate(reason) => reason@,
            ReauthError::Spawn(reason) => reason@,
            ReauthError::Rejected(status) => "2FA failed: "@ + status@,
        }
    }

    /// Puts the error in words.
    pub fn message(&self) -> (message: String)
        ensures
            message@ == self.text(),
    {
        match self {
            ReauthError::NoTty(error) => error.message(),
            ReauthError::Open(reason) => reason.clone(),
            ReauthError::Duplicate(reason) => reason.clone(),
            ReauthError::Spawn(reason) => reason.clone(),
            ReauthError::Rejected(status) => {
                String::from_str("2FA failed: ").concat(status.as_str())
            },
        }
    }
}

/// How an action of a challenge went.
#[derive(Debug, PartialEq, Eq)]
pub enum Outcome {
    /// It was done; for the authenticator, it accepted the user.
    Done,
    /// The authenticator ran and did not accept the user, with how it exited.
    Rejected(String),
    /// It could not be done, with the reason.
    Failed(String),
}

/// How far a challenge has come.
#[derive(Debug, PartialEq, Eq)]
pub enum Phase {
    /// The process is to be frozen.
    Freeze { tty: String },
    /// The terminal is to be opened.
    Open { tty: String },
    /// The terminal is to be duplicated.
    Duplicate,
    /// The authenticator is to be run.
    Authenticate,
    /// The challenge is over and the process is to run on.
    Resume { result: Result<(), ReauthError> },
    /// The run was not passed, and the process is made to run on, whether or not
    /// it does already.
    Recover { error: ReauthError },
    /// Nothing is left to do.
    Finished { result: Result<(), ReauthError> },
}

/// The next action of a challenge, whose outcome is handed to
/// [`Reauth::step`].
#[derive(Debug, PartialEq, Eq)]
pub enum Action {
    /// Send a signal to the process.
    Send { pid: u32, signal: Signal },
    /// Open this terminal for reading and writing.
    OpenTty(String),
    /// Duplicate the terminal twice, for output and for errors.
    DuplicateTty,
    /// Run the authenticator on the terminal, with these arguments.
    RunAuthenticator { program: String, args: Vec<String> },
    /// Nothing: the challenge is over.
    Finish,
}

/// A challenge of process `pid`.
#[derive(Debug, PartialEq, Eq)]
pub struct Reauth {
    pub pid: u32,
    pub phase: Phase,
}

/// How a challenge of `pid` starts, when reading the link to its input led to
/// `target`: on its terminal, or without one.
pub open spec fn first_phase(pid: u32, target: Result<String, String>) -> Phase {
    match tty_of(pid, target) {
        Ok(tty) => Phase::Freeze { tty },
        Err(error) => Phase::Recover { error: ReauthError::NoTty(error) },
    }
}

/// How a challenge goes on after an action.
pub open spec fn next_phase(phase: Phase, outcome: Outcome) -> Phase {
    match phase {
        Phase::Freeze { tty } => Phase::Open { tty },
        Phase::Open { tty } => match outcome {
            Outcome::Done => Phase::Duplicate,
            Outcome::Rejected(reason) | Outcome::Failed(reason) => Phase::Recover {
                error: ReauthError::Open(reason),
            },
        },
        Phase::Duplicate => match outcome {
            Outcome::Done => Phase::Authenticate,
            Outcome::Rejected(reason) | Outcome::Failed(reason) => Phase::Resume {
                result: Err(ReauthError::Duplicate(reason)),
            },
        },
        Phase::Authenticate => match outcome {
            Outcome::Done => Phase::Resume { result: Ok(()) },
            Outcome::Rejected(status) => Phase::Resume {
                result: Err(ReauthError::Rejected(status)),
            },
            Outcome::Failed(reason) => Phase::Recover { error: ReauthError::Spawn(reason) },
        },
        Phase::Resume { result } => match result {
            Ok(_) => Phase::Finished { result },
            Err(error) => Phase::Recover { error },
        },
        Phase::Recover { error } => Phase::Finished { result: Err(error) },
        Phase::Finished { result } => phase,
    }
}

/// Whether `action` is what a challenge of `pid` does in `phase`.
pub open spec fn acts(pid: u32, phase: Phase, action: Action) -> bool {
    match phase {
        Phase::Freeze { tty } => action == (Action::Send { pid, signal: Signal::Stop }),
        Phase::Open { tty } => action == Action::OpenTty(tty),
        Phase::Duplicate => action == Action::DuplicateTty,
        Phase::Authenticate => {
            &&& action is RunAuthenticator
            &&& action->program@ == TPM_AUTH_PATH@
            &&& action->args@.len() == 2
            &&& action->args@[0]@ == "--reauthenticate"@
            &&& action->args@[1]@ == decimal(pid as nat)
        },
        Phase::Resume { result } => action == (Action::Send { pid, signal: Signal::Continue }),
        Phase::Recover { error } => action == (Action::Send { pid, signal: Signal::Continue }),
        Phase::Finished { result } => action == Action::Finish,
    }
}

/// The signal that a challenge sends in `phase`, if it sends one.
pub open spec fn signal_in(phase: Phase) -> Option<Signal> {
    match phase {
        Phase::Freeze { .. } => Some(Signal::Stop),
        Phase::Resume { .. } => Some(Signal::Continue),
        Phase::Recover { .. } => Some(Signal::Continue),
        _ => None,
    }
}

impl Reauth {
    /// Starts the challenge of process `pid`, given what reading the link to its
    /// input led to, or the reason why that failed.
    ///
    /// The run proper is over on entering [`Phase::Recover`] or
    /// [`Phase::Finished`]. By then nothing was sent without a terminal, the stop
    /// signal alone where the terminal could not be opened or the authenticator
    /// not be run, and stop and continue otherwise. What follows a run that was
    /// not passed, in [`Phase::Recover`], is one more continue signal.
    pub fn run_2fa(pid: u32, target: Result<String, String>) -> (reauth: Reauth)
        ensures
            reauth.pid == pid,
            reauth.phase == first_phase(pid, target),
    {
        let phase = match get_tty_of_pid(pid, target) {
            Ok(tty) => Phase::Freeze { tty },
            Err(error) => Phase::Recover { error: ReauthError::NoTty(error) },
        };
        Reauth { pid, phase }
    }

    /// What to do now.
    pub fn action(&self) -> (action: Action)
        ensures
            acts(self.pid, self.phase, action),
            signal_in(self.phase) == match action {
                Action::Send { signal, .. } => Some(signal),
                _ => None,
            },
    {
        match &self.phase {
            Phase::Freeze { .. } => Action::Send { pid: self.pid, signal: Signal::Stop },
            Phase::Open { tty } => Action::OpenTty(tty.clone()),
            Phase::Duplicate => Action::DuplicateTty,
            Phase::Authenticate => {
                let mut args: Vec<String> = Vec::new();
                args.push(String::from_str("--reauthenticate"));
                args.push(decimal_string(self.pid));
                Action::RunAuthenticator {
                    program: String::from_str(TPM_AUTH_PATH),
                    args,
                }
            },
            Phase::Resume { .. } => Action::Send { pid: self.pid, signal: Signal::Continue },
            Phase::Recover { .. } => Action::Send { pid: self.pid, signal: Signal::Continue },
            Phase::Finished { .. } => Action::Finish,
        }
    }

    /// Takes note of how the action went. Sending a signal counts as done,
    /// however it went.
    pub fn step(self, outcome: Outcome) -> (next: Reauth)
        ensures
            next.pid == self.pid,
            next.phase == next_phase(self.phase, outcome),
    {
        let phase = match self.phase {
            Phase::Freeze { tty } => Phase::Open { tty },
            Phase::Open { .. } => match outcome {
                Outcome::Done => Phase::Duplicate,
                Outcome::Rejected(reason) | Outcome::Failed(reason) => Phase::Recover {
                    error: ReauthError::Open(reason),
                },
            },
            Phase::Duplicate => match outcome {
                Outcome::Done => Phase::Authenticate,
                Outcome::Rejected(reason) | Outcome::Failed(reason) => Phase::Resume {
                    result: Err(ReauthError::Duplicate(reason)),
                },
            },
            Phase::Authenticate => match outcome {
                Outcome::Done => Phase::Resume { result: Ok(()) },
                Outcome::Rejected(status) => Phase::Resume {
                    result: Err(ReauthError::Rejected(status)),
                },
                Outcome::Failed(reason) => Phase::Recover { error: ReauthError::Spawn(reason) },
            },
            Phase::Resume { result } => match result {
                Ok(passed) => Phase::Finished { result: Ok(passed) },
                Err(error) => Phase::Recover { error },
            },
            Phase::Recover { error } => Phase::Finished { result: Err(error) },
            Phase::Finished { result } => Phase::Finished { result },
        };
        Reauth { pid: self.pid, phase }
    }
}

/// Where a challenge stands after actions with `outcomes`.
pub open spec fn phase_after(phase: Phase, outcomes: Seq<Outcome>) -> Phase
    decreases outcomes.len(),
{
    if outcomes.len() == 0 {
        phase
    } else {
        phase_after(next_phase(phase, outcomes[0]), outcomes.drop_first())
    }
}

/// The signals that a challenge sends in actions with `outcomes`.
pub open spec fn signals(phase: Phase, outcomes: Seq<Outcome>) -> Seq<Signal>
    decreases outcomes.len(),
{
    if outcomes.len() == 0 {
        Seq::empty()
    } else {
        let rest = signals(next_phase(phase, outcomes[0]), outcomes.drop_first());
        match signal_in(phase) {
            Some(signal) => seq![signal] + rest,
            None => rest,
        }
    }
}

/// Whether the process is frozen after these signals, if it ran before them.
pub open spec fn frozen_after(sent: Seq<Signal>) -> bool {
    sent.len() > 0 && sent.last() == Signal::Stop
}

/// How many actions a challenge still takes at most.
pub open spec fn actions_left(phase: Phase) -> nat {
    match phase {
        Phase::Freeze { .. } => 6,
        Phase::Open { .. } => 5,
        Phase::Duplicate => 4,
        Phase::Authenticate => 3,
        Phase::Resume { .. } => 2,
        Phase::Recover { .. } => 1,
        Phase::Finished { .. } => 0,
    }
}

/// No challenge leaves a process frozen: however its actions go, it is over
/// after six of them, and the last signal that it sent let the process run on.
pub proof fn law_process_is_resumed(
    pid: u32,
    target: Result<String, String>,
    outcomes: Seq<Outcome>,
)
    requires
        outcomes.len() >= 6,
    ensures
        phase_after(first_phase(pid, target), outcomes) is Finished,
        signals(first_phase(pid, target), outcomes).len() > 0,
        signals(first_phase(pid, target), outcomes).last() == Signal::Continue,
        !frozen_after(signals(first_phase(pid, target), outcomes)),
{
    lemma_ends_resumed(first_phase(pid, target), outcomes);
}

proof fn lemma_ends_resumed(phase: Phase, outcomes: Seq<Outcome>)
    requires
        outcomes.len() >= actions_left(phase),
    ensures
        phase_after(phase, outcomes) is Finished,
        phase is Finished ==> signals(phase, outcomes) == Seq::<Signal>::empty(),
        !(phase is Finished) ==> signals(phase, outcomes).len() > 0 && signals(
            phase,
            outcomes,
        ).last() == Signal::Continue,
    decreases outcomes.len(),
{
    if outcomes.len() > 0 {
        lemma_ends_resumed(next_phase(phase, outcomes[0]), outcomes.drop_first());
    }
}

/// Whether the run proper of a challenge is over, so that at most making sure
/// that the process runs on is left.
pub open spec fn run_over(phase: Phase) -> bool {
    phase is Recover || phase is Finished
}

/// How the run proper went, once it is over.
pub open spec fn run_result(phase: Phase) -> Result<(), ReauthError>
    recommends
        run_over(phase),
{
    match phase {
        Phase::Recover { error } => Err(error),
        _ => phase->Finished_result,
    }
}

/// Where the run proper stands after actions with `outcomes`.
pub open spec fn run_after(phase: Phase, outcomes: Seq<Outcome>) -> Phase
    decreases outcomes.len(),
{
    if outcomes.len() == 0 || run_over(phase) {
        phase
    } else {
        run_after(next_phase(phase, outcomes[0]), outcomes.drop_first())
    }
}

/// The signals that the run proper sends in actions with `outcomes`.
pub open spec fn run_signals(phase: Phase, outcomes: Seq<Outcome>) -> Seq<Signal>
    decreases outcomes.len(),
{
    if outcomes.len() == 0 || run_over(phase) {
        Seq::empty()
    } else {
        let rest = run_signals(next_phase(phase, outcomes[0]), outcomes.drop_first());
        match signal_in(phase) {
            Some(signal) => seq![signal] + rest,
            None => rest,
        }
    }
}

/// What the run proper has sent when it is over with `result`.
pub open spec fn sent_by_run(result: Result<(), ReauthError>) -> Seq<Signal> {
    match result {
        Err(ReauthError::NoTty(_)) => Seq::empty(),
        Err(ReauthError::Open(_)) | Err(ReauthError::Spawn(_)) => seq![Signal::Stop],
        _ => seq![Signal::Stop, Signal::Continue],
    }
}

/// However its actions go, the run proper gets over. By then it has sent nothing
/// without a terminal, the stop signal alone where the terminal could not be
/// opened or the authenticator not be run, and stop and continue otherwise. The
/// whole challenge sends one more continue signal after a run that was not
/// passed, and none after one that was.
pub proof fn law_signals_of_a_run(
    pid: u32,
    target: Result<String, String>,
    outcomes: Seq<Outcome>,
)
    requires
        outcomes.len() >= 6,
    ensures
        ({
            let start = first_phase(pid, target);
            let end = run_after(start, outcomes);
            &&& run_over(end)
            &&& run_signals(start, outcomes) == sent_by_run(run_result(end))
            &&& signals(start, outcomes) == run_signals(start, outcomes) + if run_result(
                end,
            ) is Err {
                seq![Signal::Continue]
            } else {
                Seq::empty()
            }
            &&& phase_after(start, outcomes) == (Phase::Finished { result: run_result(end) })
        }),
{
    let start = first_phase(pid, target);
    lemma_run(start, outcomes);
    let end = run_after(start, outcomes);
    if start is Freeze {
        assert(run_signals(start, outcomes) =~= sent_by_run(run_result(end)));
    }
}

/// What is still to be sent in a run that is in `phase` and will be over with
/// `result`.
spec fn yet_to_send(phase: Phase, result: Result<(), ReauthError>) -> Seq<Signal> {
    if run_over(phase) {
        Seq::empty()
    } else if phase is Freeze {
        sent_by_run(result)
    } else {
        sent_by_run(result).drop_first()
    }
}

/// Whether a run on a terminal can be in `phase`.
spec fn in_run(phase: Phase) -> bool {
    phase matches Phase::Resume { result: Err(error) } ==> error is Duplicate || error is Rejected
}

proof fn lemma_run(phase: Phase, outcomes: Seq<Outcome>)
    requires
        in_run(phase),
        outcomes.len() >= actions_left(phase),
    ensures
        ({
            let end = run_after(phase, outcomes);
            &&& run_over(end)
            &&& !run_over(phase) && run_result(end) is Err ==> !(run_result(end)->Err_0 is NoTty)
            &&& !run_over(phase) && !(phase is Freeze || phase is Open) ==> !(run_result(
                end,
            ) is Err && run_result(end)->Err_0 is Open)
            &&& phase is Resume ==> run_result(end) == phase->Resume_result
            &&& run_signals(phase, outcomes) == yet_to_send(phase, run_result(end))
            &&& !(phase is Finished) ==> signals(phase, outcomes) == run_signals(phase, outcomes)
                + if run_result(end) is Err {
                seq![Signal::Continue]
            } else {
                Seq::empty()
            }
            &&& phase is Finished ==> signals(phase, outcomes) == Seq::<Signal>::empty()
            &&& phase_after(phase, outcomes) == (Phase::Finished { result: run_result(end) })
        }),
    decreases outcomes.len(),
{
    if outcomes.len() > 0 {
        let next = next_phase(phase, outcomes[0]);
        let rest = outcomes.drop_first();
        lemma_run(next, rest);
        let end = run_after(phase, outcomes);
        let tail = if run_result(end) is Err {
            seq![Signal::Continue]
        } else {
            Seq::<Signal>::empty()
        };
        assert(run_signals(phase, outcomes) =~= yet_to_send(phase, run_result(end)));
        if !(phase is Finished) {
            assert(signals(phase, outcomes) =~= run_signals(phase, outcomes) + tail);
        }
    }
}

/// Process 0 is never frozen, whatever the link was taken to lead to: its
/// challenge fails for want of a process and sends no stop signal.
pub proof fn law_process_zero_is_never_frozen(
    target: Result<String, String>,
    outcomes: Seq<Outcome>,
)
    ensures
        first_phase(0, target) == (Phase::Recover {
            error: ReauthError::NoTty(TtyError::InvalidPid),
        }),
        !signals(first_phase(0, target), outcomes).contains(Signal::Stop),
{
    if outcomes.len() > 0 {
        let rest = outcomes.drop_first();
        let finished = next_phase(first_phase(0, target), outcomes[0]);
        lemma_ends_resumed(finished, rest);
        assert(signals(first_phase(0, target), outcomes) =~= seq![Signal::Continue]);
    }
}

/// The terminal is opened and the user is asked only while the process is
/// frozen, so that the two never read from it together.
pub proof fn law_asked_while_frozen(
    pid: u32,
    target: Result<String, String>,
    outcomes: Seq<Outcome>,
)
    ensures
        ({
            let phase = phase_after(first_phase(pid, target), outcomes);
            phase is Open || phase is Duplicate || phase is Authenticate ==> frozen_after(
                signals(first_phase(pid, target), outcomes),
            )
        }),
{
    lemma_frozen(first_phase(pid, target), outcomes);
}

proof fn lemma_frozen(phase: Phase, outcomes: Seq<Outcome>)
    ensures
        ({
            let last = phase_after(phase, outcomes);
            let sent = signals(phase, outcomes);
            last is Open || last is Duplicate || last is Authenticate ==> {
                &&& phase is Freeze ==> frozen_after(sent)
                &&& phase is Freeze || phase is Open || phase is Duplicate || phase is Authenticate
                &&& !(phase is Freeze) ==> sent == Seq::<Signal>::empty()
            }
        }),
    decreases outcomes.len(),
{
    if outcomes.len() > 0 {
        lemma_frozen(next_phase(phase, outcomes[0]), outcomes.drop_first());
    }
}

/// A challenge is passed exactly when the process has a terminal, which could be
/// opened and duplicated, and the authenticator accepted the user.
pub proof fn law_passed_iff_accepted(
    pid: u32,
    target: Result<String, String>,
    outcomes: Seq<Outcome>,
)
    requires
        outcomes.len() >= 6,
    ensures
        phase_after(first_phase(pid, target), outcomes) == (Phase::Finished { result: Ok(()) }) <==> {
            &&& tty_of(pid, target) is Ok
            &&& outcomes[1] is Done
            &&& outcomes[2] is Done
            &&& outcomes[3] is Done
        },
{
    let o1 = outcomes.drop_first();
    let o2 = o1.drop_first();
    let o3 = o2.drop_first();
    let p0 = first_phase(pid, target);
    let p1 = next_phase(p0, outcomes[0]);
    let p2 = next_phase(p1, outcomes[1]);
    let p3 = next_phase(p2, outcomes[2]);
    let p4 = next_phase(p3, outcomes[3]);
    assert(phase_after(p0, outcomes) == phase_after(p1, o1));
    assert(phase_after(p1, o1) == phase_after(p2, o2));
    assert(phase_after(p2, o2) == phase_after(p3, o3));
    assert(phase_after(p3, o3) == phase_after(p4, o3.drop_first()));
    lemma_result_kept(p1, o1);
    lemma_result_kept(p2, o2);
    lemma_result_kept(p3, o3);
    lemma_result_kept(p4, o3.drop_first());
}

proof fn lemma_result_kept(phase: Phase, outcomes: Seq<Outcome>)
    ensures
        phase is Recover ==> phase_after(phase, outcomes) != (Phase::Finished { result: Ok(()) }),
        phase matches Phase::Finished { result: Err(_) } ==> phase_after(phase, outcomes) == phase,
        phase == (Phase::Finished { result: Ok(()) }) ==> phase_after(phase, outcomes) == phase,
        phase matches Phase::Resume { result: Err(_) } ==> phase_after(phase, outcomes) != (
        Phase::Finished { result: Ok(()) }),
        phase == (Phase::Resume { result: Ok(()) }) && outcomes.len() > 0 ==> phase_after(
            phase,
            outcomes,
        ) == (Phase::Finished { result: Ok(()) }),
    decreases outcomes.len(),
{
    if outcomes.len() > 0 {
        lemma_result_kept(next_phase(phase, outcomes[0]), outcomes.drop_first());
    }
}

/// Whatever happens in a challenge, the only terminal that it opens is the one
/// that the link of the process leads to, by its whole path; it signals no process
/// but its own; and it runs nothing but the authenticator, for that process.
pub proof fn law_only_its_own_terminal_is_opened(
    pid: u32,
    target: Result<String, String>,
    outcomes: Seq<Outcome>,
    action: Action,
)
    requires
        acts(pid, phase_after(first_phase(pid, target), outcomes), action),
    ensures
        action matches Action::OpenTty(path) ==> {
            &&& pid != 0
            &&& target == Ok::<String, String>(path)
            &&& "/dev/"@.is_prefix_of(path@)
            &&& tty_of(pid, target) == Ok::<String, TtyError>(path)
        },
        action matches Action::Send { pid: receiver, .. } ==> receiver == pid,
        action matches Action::RunAuthenticator { program, args } ==> {
            &&& program@ == "/usr/local/bin/tpm_auth"@
            &&& args@.len() == 2
            &&& args@[0]@ == "--reauthenticate"@
            &&& args@[1]@ == decimal(pid as nat)
        },
{
    lemma_terminal_kept(pid, target, first_phase(pid, target), outcomes);
}

/// Whether `phase`, where it still has a terminal to open, has that of the
/// process.
spec fn on_terminal(pid: u32, target: Result<String, String>, phase: Phase) -> bool {
    match phase {
        Phase::Freeze { tty } => tty_of(pid, target) == Ok::<String, TtyError>(tty),
        Phase::Open { tty } => tty_of(pid, target) == Ok::<String, TtyError>(tty),
        _ => true,
    }
}

proof fn lemma_terminal_kept(
    pid: u32,
    target: Result<String, String>,
    phase: Phase,
    outcomes: Seq<Outcome>,
)
    requires
        on_terminal(pid, target, phase),
    ensures
        on_terminal(pid, target, phase_after(phase, outcomes)),
    decreases outcomes.len(),
{
    if outcomes.len() > 0 {
        lemma_terminal_kept(
            pid,
            target,
            next_phase(phase, outcomes[0]),
            outcomes.drop_first(),
        );
    }
}

/// A challenge keeps to its terminal from the first action to the one that opens
/// it, and opens it as it is.
pub proof fn law_terminal_is_carried(pid: u32, tty: String, outcome: Outcome, action: Action)
    requires
        acts(pid, next_phase(Phase::Freeze { tty }, outcome), action),
    ensures
        action == Action::OpenTty(tty),
{
}

/// The course of a challenge on a terminal. The process is stopped and the terminal
/// opened, then duplicated, then the authenticator is run and the process resumed.
/// Where the terminal cannot be opened or the authenticator not be run, the process
/// is resumed at once; where the terminal cannot be duplicated or the user is turned
/// down, it is resumed twice. Then the challenge is over.
pub proof fn law_course_of_a_challenge(
    pid: u32,
    path: String,
    outcomes: Seq<Outcome>,
    action: Action,
)
    requires
        pid != 0,
        "/dev/"@.is_prefix_of(path@),
        acts(pid, phase_after(first_phase(pid, Ok(path)), outcomes), action),
    ensures
        ({
            let k = outcomes.len();
            let opened = outcomes[1] is Done;
            let doubled = opened && outcomes[2] is Done;
            let resume = Action::Send { pid, signal: Signal::Continue };
            &&& k == 0 ==> action == (Action::Send { pid, signal: Signal::Stop })
            &&& k == 1 ==> action == Action::OpenTty(path)
            &&& k == 2 && opened ==> action == Action::DuplicateTty
            &&& k == 2 && !opened ==> action == resume
            &&& k >= 3 && !opened ==> action == Action::Finish
            &&& k == 3 && doubled ==> action is RunAuthenticator
            &&& k == 3 && opened && !doubled ==> action == resume
            &&& k == 4 && opened ==> action == resume
            &&& k == 5 && opened && !doubled ==> action == Action::Finish
            &&& k == 5 && doubled && outcomes[3] is Rejected ==> action == resume
            &&& k == 5 && doubled && !(outcomes[3] is Rejected) ==> action == Action::Finish
            &&& k >= 6 ==> action == Action::Finish
        }),
{
    lemma_course(pid, path, outcomes);
}

proof fn lemma_course(pid: u32, path: String, outcomes: Seq<Outcome>)
    requires
        pid != 0,
        "/dev/"@.is_prefix_of(path@),
    ensures
        phase_after(first_phase(pid, Ok(path)), outcomes) == course(path, outcomes),
    decreases outcomes.len(),
{
    if outcomes.len() > 0 {
        let before = outcomes.drop_last();
        lemma_course(pid, path, before);
        lemma_phase_push(first_phase(pid, Ok(path)), before, outcomes.last());
        assert(before.push(outcomes.last()) =~= outcomes);
    }
}

/// Where a challenge on the terminal at `path` stands after actions with
/// `outcomes`.
spec fn course(path: String, outcomes: Seq<Outcome>) -> Phase {
    let k = outcomes.len();
    if k == 0 {
        Phase::Freeze { tty: path }
    } else if k == 1 {
        Phase::Open { tty: path }
    } else if !(outcomes[1] is Done) {
        let error = ReauthError::Open(reason_of(outcomes[1]));
        if k == 2 {
            Phase::Recover { error }
        } else {
            Phase::Finished { result: Err(error) }
        }
    } else if k == 2 {
        Phase::Duplicate
    } else if !(outcomes[2] is Done) {
        let error = ReauthError::Duplicate(reason_of(outcomes[2]));
        if k == 3 {
            Phase::Resume { result: Err(error) }
        } else if k == 4 {
            Phase::Recover { error }
        } else {
            Phase::Finished { result: Err(error) }
        }
    } else if k == 3 {
        Phase::Authenticate
    } else {
        match outcomes[3] {
            Outcome::Done => if k == 4 {
                Phase::Resume { result: Ok(()) }
            } else {
                Phase::Finished { result: Ok(()) }
            },
            Outcome::Rejected(status) => if k == 4 {
                Phase::Resume { result: Err(ReauthError::Rejected(status)) }
            } else if k == 5 {
                Phase::Recover { error: ReauthError::Rejected(status) }
            } else {
                Phase::Finished { result: Err(ReauthError::Rejected(status)) }
            },
            Outcome::Failed(reason) => if k == 4 {
                Phase::Recover { error: ReauthError::Spawn(reason) }
            } else {
                Phase::Finished { result: Err(ReauthError::Spawn(reason)) }
            },
        }
    }
}

/// Why an action was not done.
pub open spec fn reason_of(outcome: Outcome) -> String
    recommends
        !(outcome is Done),
{
    match outcome {
        Outcome::Rejected(reason) => reason,
        _ => outcome->Failed_0,
    }
}

proof fn lemma_phase_push(phase: Phase, outcomes: Seq<Outcome>, outcome: Outcome)
    ensures
        phase_after(phase, outcomes.push(outcome)) == next_phase(
            phase_after(phase, outcomes),
            outcome,
        ),
    decreases outcomes.len(),
{
    let all = outcomes.push(outcome);
    if outcomes.len() > 0 {
        lemma_phase_push(next_phase(phase, outcomes[0]), outcomes.drop_first(), outcome);
        assert(all.drop_first() =~= outcomes.drop_first().push(outcome));
    } else {
        assert(all.drop_first() =~= Seq::<Outcome>::empty());
        assert(phase_after(next_phase(phase, outcome), all.drop_first()) == next_phase(
            phase,
            outcome,
        ));
    }
}

/// The result of a challenge says which of its actions went wrong first, and why:
/// that there is no terminal, or the reason with which opening or duplicating it or
/// running the authenticator failed, or how the authenticator exited that turned
/// the user down.
pub proof fn law_result_says_what_failed(
    pid: u32,
    target: Result<String, String>,
    outcomes: Seq<Outcome>,
)
    requires
        outcomes.len() >= 6,
    ensures
        ({
            let end = phase_after(first_phase(pid, target), outcomes);
            let result = end->Finished_result;
            &&& end is Finished
            &&& pid == 0 ==> result == Err::<(), ReauthError>(
                ReauthError::NoTty(TtyError::InvalidPid),
            )
            &&& pid != 0 && target is Err ==> result == Err::<(), ReauthError>(
                ReauthError::NoTty(TtyError::Unreadable(target->Err_0)),
            )
            &&& pid != 0 && target is Ok && !"/dev/"@.is_prefix_of(target->Ok_0@) ==> result
                == Err::<(), ReauthError>(ReauthError::NoTty(TtyError::NotATty(target->Ok_0)))
            &&& pid != 0 && target is Ok && "/dev/"@.is_prefix_of(target->Ok_0@) ==> {
                &&& !(outcomes[1] is Done) ==> result == Err::<(), ReauthError>(
                    ReauthError::Open(reason_of(outcomes[1])),
                )
                &&& outcomes[1] is Done && !(outcomes[2] is Done) ==> result == Err::<
                    (),
                    ReauthError,
                >(ReauthError::Duplicate(reason_of(outcomes[2])))
                &&& outcomes[1] is Done && outcomes[2] is Done ==> match outcomes[3] {
                    Outcome::Done => result is Ok,
                    Outcome::Rejected(status) => result == Err::<(), ReauthError>(
                        ReauthError::Rejected(status),
                    ),
                    Outcome::Failed(reason) => result == Err::<(), ReauthError>(
                        ReauthError::Spawn(reason),
                    ),
                }
            }
        }),
{
    match target {
        Ok(path) if pid != 0 && "/dev/"@.is_prefix_of(path@) => {
            lemma_course(pid, path, outcomes);
        },
        _ => {
            let start = first_phase(pid, target);
            let over = next_phase(start, outcomes[0]);
            lemma_finished_stays(over, outcomes.drop_first());
        },
    }
}

proof fn lemma_finished_stays(phase: Phase, outcomes: Seq<Outcome>)
    requires
        phase is Finished,
    ensures
        phase_after(phase, outcomes) == phase,
    decreases outcomes.len(),
{
    if outcomes.len() > 0 {
        lemma_finished_stays(phase, outcomes.drop_first());
    }
}

/// Without a terminal the process is made to run on, once, and that is all.
pub proof fn law_nothing_is_done_without_terminal(
    pid: u32,
    target: Result<String, String>,
    outcomes: Seq<Outcome>,
    action: Action,
)
    requires
        pid == 0 || target is Err || !"/dev/"@.is_prefix_of(target->Ok_0@),
        acts(pid, phase_after(first_phase(pid, target), outcomes), action),
    ensures
        outcomes.len() == 0 ==> action == (Action::Send { pid, signal: Signal::Continue }),
        outcomes.len() > 0 ==> action == Action::Finish,
{
    if outcomes.len() > 0 {
        lemma_finished_stays(
            next_phase(first_phase(pid, target), outcomes[0]),
            outcomes.drop_first(),
        );
    }
}

/// What is to come of a challenge is not lost on the way to its end: a result that
/// is known is the one that it ends with, however the signals go.
pub proof fn law_known_result_is_kept(
    result: Result<(), ReauthError>,
    first: Outcome,
    second: Outcome,
)
    ensures
        ({
            let resumed = next_phase(Phase::Resume { result }, first);
            &&& result is Ok ==> resumed == (Phase::Finished { result })
            &&& result is Err ==> next_phase(resumed, second) == (Phase::Finished { result })
            &&& next_phase(Phase::Finished { result }, first) == (Phase::Finished { result })
        }),
{
}

/// A challenge whose result is known only resumes its process, or is over.
pub proof fn law_process_runs_on(
    pid: u32,
    result: Result<(), ReauthError>,
    error: ReauthError,
    action: Action,
)
    ensures
        acts(pid, Phase::Resume { result }, action) <==> action == (Action::Send {
            pid,
            signal: Signal::Continue,
        }),
        acts(pid, Phase::Recover { error }, action) <==> action == (Action::Send {
            pid,
            signal: Signal::Continue,
        }),
        acts(pid, Phase::Finished { result }, action) <==> action == Action::Finish,
{
}

/// Errors say what they are about.
pub proof fn law_reauth_errors_say_why(error: TtyError, text: String)
    ensures
        ReauthError::NoTty(error).text() == error.text(),
        ReauthError::Open(text).text() == text@,
        ReauthError::Duplicate(text).text() == text@,
        ReauthError::Spawn(text).text() == text@,
        ReauthError::Rejected(text).text() == "2FA failed: "@ + text@,
{
}

} // verus!
