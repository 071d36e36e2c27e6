//! Waiting on the perf buffers of all processors, and on a wake-up.

use vstd::multiset::Multiset;
use vstd::prelude::*;

verus! {

/// What the wake-up descriptor is registered under. Perf buffers are registered
/// under their indices, none of which reaches it.
pub const WAKE_EVENT_MARKER: u64 = usize::MAX as u64;

/// A set of descriptors that is waited on: the perf buffers and a wake-up.
///
/// The descriptors are numbers here. Whoever performs the calls closes them.
#[derive(Debug, Clone, Copy, PartialEq, Eq)]
pub struct Epoll {
    /// The descriptor that is waited with.
    pub epfd: i32,
    /// The descriptor of the wake-up.
    pub wake_fd: i32,
    /// How many perf buffers are registered, which is also how many
    /// descriptors one wait reports at most.
    pub num_buffers: usize,
}

/// How a wait ended.
#[derive(Debug, PartialEq, Eq)]
pub enum WaitOutcome {
    /// What the descriptors that are ready are registered under.
    Ready(Vec<u64>),
    /// A signal ended the wait.
    Interrupted,
    /// The wait failed, with the error code.
    Failed(i32),
}

/// What a wait amounts to.
#[derive(Debug, PartialEq, Eq)]
pub enum PollStep {
    /// Wait again.
    Retry,
    /// These perf buffers can be read.
    Readable(Vec<usize>),
    /// The wake-up came: stop waiting.
    Woken,
    /// The wait failed, with the error code.
    Failed(i32),
}

/// A number to write to a descriptor.
#[derive(Debug, Clone, Copy, PartialEq, Eq)]
pub struct WakeWrite {
    pub fd: i32,
    pub value: u64,
}

/// The perf buffers that are registered under `tokens`.
pub open spec fn buffer_indices(tokens: Seq<u64>) -> Seq<usize> {
    tokens.map_values(|token: u64| token as usize)
}

/// Whether `step` is what `wait` amounts to.
pub open spec fn amounts_to(wait: WaitOutcome, step: PollStep) -> bool {
    match wait {
        WaitOutcome::Interrupted => step == PollStep::Retry,
        WaitOutcome::Failed(code) => step == PollStep::Failed(code),
        WaitOutcome::Ready(tokens) => if tokens@.contains(WAKE_EVENT_MARKER) {
            step == PollStep::Woken
        } else {
            step is Readable && step->Readable_0@ == buffer_indices(tokens@)
        },
    }
}

/// What to write so that a wait on `epoll` ends.
pub open spec fn wake_write(epoll: Epoll) -> WakeWrite {
    WakeWrite { fd: epoll.wake_fd, value: 1 }
}

/// The descriptors that a set owns: both of its own, or none where one of them
/// was never opened.
pub open spec fn held_by(epoll: Epoll) -> Seq<i32> {
    if epoll.epfd >= 0 && epoll.wake_fd >= 0 {
        seq![epoll.epfd, epoll.wake_fd]
    } else {
        Seq::empty()
    }
}

fn contains_marker(tokens: &Vec<u64>) -> (found: bool)
    ensures
        found == tokens@.contains(WAKE_EVENT_MARKER),
{
    let mut i: usize = 0;
    while i < tokens.len()
        invariant
            i <= tokens@.len(),
            forall|j: int| 0 <= j < i ==> tokens@[j] != WAKE_EVENT_MARKER,
        decreases tokens@.len() - i,
    {
        if tokens[i] == WAKE_EVENT_MARKER {
            return true;
        }
        i = i + 1;
    }
    false
}

impl Epoll {
    /// Says what a wait amounts to. An interrupted one is repeated. A wake-up
    /// counts before the buffers that became readable with it.
    pub fn poll_readable(&self, wait: WaitOutcome) -> (step: PollStep)
        ensures
            amounts_to(wait, step),
    {
        let tokens: Vec<u64> = match wait {
            WaitOutcome::Interrupted => return PollStep::Retry,
            WaitOutcome::Failed(code) => return PollStep::Failed(code),
            WaitOutcome::Ready(tokens) => tokens,
        };
        if contains_marker(&tokens) {
            return PollStep::Woken;
        }
        let mut indices: Vec<usize> = Vec::new();
        let mut i: usize = 0;
        while i < tokens.len()
            invariant
                i <= tokens@.len(),
                indices@ == buffer_indices(tokens@.take(i as int)),
            decreases tokens@.len() - i,
        {
            let token = tokens[i];
            #[verifier::truncate]
            let index = token as usize;
            indices.push(index);
            i = i + 1;
            assert(indices@ =~= buffer_indices(tokens@.take(i as int)));
        }
        assert(tokens@.take(i as int) =~= tokens@);
        PollStep::Readable(indices)
    }

    /// What to write so that a wait ends.
    pub fn wake(&self) -> (write: WakeWrite)
        ensures
            write == wake_write(*self),
    {
        WakeWrite { fd: self.wake_fd, value: 1 }
    }

    /// The descriptors to close when the set is given up.
    pub fn descriptors(&self) -> (fds: Vec<i32>)
        ensures
            fds@ == held_by(*self),
    {
        let mut fds: Vec<i32> = Vec::new();
        if self.epfd >= 0 && self.wake_fd >= 0 {
            fds.push(self.epfd);
            fds.push(self.wake_fd);
        }
        fds
    }
}

/// How far setting up an [`Epoll`] has come.
#[derive(Debug, Clone, Copy, PartialEq, Eq)]
pub enum SetupPhase {
    CreateEpoll,
    CreateWake { epfd: i32 },
    AddWake { epfd: i32, wake_fd: i32 },
    AddBuffer { epfd: i32, wake_fd: i32, next: usize },
    CloseWake { epfd: i32, wake_fd: i32 },
    CloseEpoll { epfd: i32 },
    Ready(Epoll),
    Failed,
}

/// The next call of a set-up, whose result is handed to [`PollSetup::step`].
#[derive(Debug, Clone, Copy, PartialEq, Eq)]
pub enum SetupAction {
    /// Create the descriptor to wait with.
    CreateEpoll,
    /// Create the wake-up descriptor.
    CreateWake,
    /// Have `epfd` wait until `fd` can be read, and report it as `token`.
    Add { epfd: i32, fd: i32, token: u64 },
    /// Close a descriptor.
    Close(i32),
    /// Nothing: the set is ready.
    Done(Epoll),
    /// Nothing: the set-up failed.
    Fail,
}

/// The set-up of an [`Epoll`] for a list of perf buffer descriptors.
#[derive(Debug, PartialEq, Eq)]
pub struct PollSetup {
    buffers: Vec<i32>,
    phase: SetupPhase,
}

/// The set over `buffers` that is waited on through `epfd`.
pub open spec fn epoll_over(buffers: Seq<i32>, epfd: i32, wake_fd: i32) -> Epoll {
    Epoll { epfd, wake_fd, num_buffers: buffers.len() as usize }
}

/// Where registering goes on at buffer `next`.
pub open spec fn add_from(buffers: Seq<i32>, epfd: i32, wake_fd: i32, next: int) -> SetupPhase {
    if next < buffers.len() {
        SetupPhase::AddBuffer { epfd, wake_fd, next: next as usize }
    } else {
        SetupPhase::Ready(epoll_over(buffers, epfd, wake_fd))
    }
}

/// How a set-up goes on after a call returned `reply`; a call fails with a
/// negative number. Whether the wake-up could be registered makes no
/// difference, nor does how closing went.
pub open spec fn setup_next(buffers: Seq<i32>, phase: SetupPhase, reply: i32) -> SetupPhase {
    match phase {
        SetupPhase::CreateEpoll => if reply < 0 {
            SetupPhase::Failed
        } else {
            SetupPhase::CreateWake { epfd: reply }
        },
        SetupPhase::CreateWake { epfd } => if reply < 0 {
            SetupPhase::CloseEpoll { epfd }
        } else {
            SetupPhase::AddWake { epfd, wake_fd: reply }
        },
        SetupPhase::AddWake { epfd, wake_fd } => add_from(buffers, epfd, wake_fd, 0),
        SetupPhase::AddBuffer { epfd, wake_fd, next } => if reply < 0 {
            SetupPhase::CloseWake { epfd, wake_fd }
        } else {
            add_from(buffers, epfd, wake_fd, next + 1)
        },
        SetupPhase::CloseWake { epfd, wake_fd } => SetupPhase::CloseEpoll { epfd },
        SetupPhase::CloseEpoll { epfd } => SetupPhase::Failed,
        SetupPhase::Ready(_) => phase,
        SetupPhase::Failed => phase,
    }
}

/// The call that a set-up makes in `phase`.
pub open spec fn setup_action(buffers: Seq<i32>, phase: SetupPhase) -> SetupAction {
    match phase {
        SetupPhase::CreateEpoll => SetupAction::CreateEpoll,
        SetupPhase::CreateWake { epfd } => SetupAction::CreateWake,
        SetupPhase::AddWake { epfd, wake_fd } => SetupAction::Add {
            epfd,
            fd: wake_fd,
            token: WAKE_EVENT_MARKER,
        },
        SetupPhase::AddBuffer { epfd, wake_fd, next } => SetupAction::Add {
            epfd,
            fd: buffers[next as int],
            token: next as u64,
        },
        SetupPhase::CloseWake { epfd, wake_fd } => SetupAction::Close(wake_fd),
        SetupPhase::CloseEpoll { epfd } => SetupAction::Close(epfd),
        SetupPhase::Ready(epoll) => SetupAction::Done(epoll),
        SetupPhase::Failed => SetupAction::Fail,
    }
}

/// Whether `phase` is one that a set-up over `buffers` can be in.
pub open spec fn setup_wf(buffers: Seq<i32>, phase: SetupPhase) -> bool {
    phase matches SetupPhase::AddBuffer { next, .. } ==> next < buffers.len()
}

/// Starts setting up a wait on `buffers`.
pub fn poll_buffers(buffers: Vec<i32>) -> (setup: PollSetup)
    ensures
        setup.fds() == buffers@,
        setup.stage() == SetupPhase::CreateEpoll,
{
    PollSetup { buffers, phase: SetupPhase::CreateEpoll }
}

impl PollSetup {
    #[verifier::type_invariant]
    spec fn inv(&self) -> bool {
        setup_wf(self.buffers@, self.phase)
    }

    /// The descriptors of the perf buffers.
    pub closed spec fn fds(&self) -> Seq<i32> {
        self.buffers@
    }

    /// How far the set-up has come.
    pub closed spec fn stage(&self) -> SetupPhase {
        self.phase
    }

    /// The call to make now.
    pub fn action(&self) -> (action: SetupAction)
        ensures
            setup_wf(self.fds(), self.stage()),
            action == setup_action(self.fds(), self.stage()),
    {
        proof {
            use_type_invariant(self);
        }
        match self.phase {
            SetupPhase::CreateEpoll => SetupAction::CreateEpoll,
            SetupPhase::CreateWake { epfd } => SetupAction::CreateWake,
            SetupPhase::AddWake { epfd, wake_fd } => SetupAction::Add {
                epfd,
                fd: wake_fd,
                token: WAKE_EVENT_MARKER,
            },
            SetupPhase::AddBuffer { epfd, wake_fd, next } => SetupAction::Add {
                epfd,
                fd: self.buffers[next],
                token: next as u64,
            },
            SetupPhase::CloseWake { epfd, wake_fd } => SetupAction::Close(wake_fd),
            SetupPhase::CloseEpoll { epfd } => SetupAction::Close(epfd),
            SetupPhase::Ready(epoll) => SetupAction::Done(epoll),
            SetupPhase::Failed => SetupAction::Fail,
        }
    }

    fn register_from(&self, epfd: i32, wake_fd: i32, next: usize) -> (phase: SetupPhase)
        ensures
            phase == add_from(self.buffers@, epfd, wake_fd, next as int),
    {
        if next < self.buffers.len() {
            SetupPhase::AddBuffer { epfd, wake_fd, next }
        } else {
            SetupPhase::Ready(Epoll { epfd, wake_fd, num_buffers: self.buffers.len() })
        }
    }

    /// Takes note of what the call returned.
    pub fn step(&mut self, reply: i32)
        ensures
            final(self).fds() == old(self).fds(),
            final(self).stage() == setup_next(old(self).fds(), old(self).stage(), reply),
    {
        proof {
            use_type_invariant(&*self);
        }
        let count = self.buffers.len();
        assert(self.phase matches SetupPhase::AddBuffer { next, .. } ==> next < count);
        self.phase = match self.phase {
            SetupPhase::CreateEpoll => if reply < 0 {
                SetupPhase::Failed
            } else {
                SetupPhase::CreateWake { epfd: reply }
            },
            SetupPhase::CreateWake { epfd } => if reply < 0 {
                SetupPhase::CloseEpoll { epfd }
            } else {
                SetupPhase::AddWake { epfd, wake_fd: reply }
            },
            SetupPhase::AddWake { epfd, wake_fd } => self.register_from(epfd, wake_fd, 0),
            SetupPhase::AddBuffer { epfd, wake_fd, next } => if reply < 0 {
                SetupPhase::CloseWake { epfd, wake_fd }
            } else {
                self.register_from(epfd, wake_fd, next + 1)
            },
            SetupPhase::CloseWake { epfd, wake_fd } => SetupPhase::CloseEpoll { epfd },
            SetupPhase::CloseEpoll { epfd } => SetupPhase::Failed,
            SetupPhase::Ready(epoll) => SetupPhase::Ready(epoll),
            SetupPhase::Failed => SetupPhase::Failed,
        };
    }
}

/// Where a set-up stands after calls that returned `replies`.
pub open spec fn setup_run(buffers: Seq<i32>, phase: SetupPhase, replies: Seq<i32>) -> SetupPhase
    decreases replies.len(),
{
    if replies.len() == 0 {
        phase
    } else {
        setup_run(buffers, setup_next(buffers, phase, replies[0]), replies.drop_first())
    }
}

/// The descriptors that a set-up opens while its calls return `replies`.
pub open spec fn setup_opened(buffers: Seq<i32>, phase: SetupPhase, replies: Seq<i32>) -> Multiset<
    i32,
>
    decreases replies.len(),
{
    if replies.len() == 0 {
        Multiset::empty()
    } else {
        let rest = setup_opened(
            buffers,
            setup_next(buffers, phase, replies[0]),
            replies.drop_first(),
        );
        match setup_action(buffers, phase) {
            SetupAction::CreateEpoll | SetupAction::CreateWake => if replies[0] >= 0 {
                rest.insert(replies[0])
            } else {
                rest
            },
            _ => rest,
        }
    }
}

/// The descriptors that a set-up closes while its calls return `replies`.
pub open spec fn setup_closed(buffers: Seq<i32>, phase: SetupPhase, replies: Seq<i32>) -> Multiset<
    i32,
>
    decreases replies.len(),
{
    if replies.len() == 0 {
        Multiset::empty()
    } else {
        let rest = setup_closed(
            buffers,
            setup_next(buffers, phase, replies[0]),
            replies.drop_first(),
        );
        match setup_action(buffers, phase) {
            SetupAction::Close(fd) => rest.insert(fd),
            _ => rest,
        }
    }
}

/// What a set-up gets registered while its calls return `replies`: each time the
/// descriptor that then waits, the one that it waits for, and the token that it
/// reports.
pub open spec fn setup_added(buffers: Seq<i32>, phase: SetupPhase, replies: Seq<i32>) -> Seq<
    (i32, i32, u64),
>
    decreases replies.len(),
{
    if replies.len() == 0 {
        Seq::empty()
    } else {
        let rest = setup_added(
            buffers,
            setup_next(buffers, phase, replies[0]),
            replies.drop_first(),
        );
        match setup_action(buffers, phase) {
            SetupAction::Add { epfd, fd, token } => if replies[0] >= 0 {
                seq![(epfd, fd, token)] + rest
            } else {
                rest
            },
            _ => rest,
        }
    }
}

/// The descriptors that a set-up holds open in `phase`.
pub open spec fn setup_holds(phase: SetupPhase) -> Multiset<i32> {
    match phase {
        SetupPhase::CreateEpoll => Multiset::empty(),
        SetupPhase::CreateWake { epfd } => Multiset::singleton(epfd),
        SetupPhase::AddWake { epfd, wake_fd } => Multiset::singleton(epfd).insert(wake_fd),
        SetupPhase::AddBuffer { epfd, wake_fd, .. } => Multiset::singleton(epfd).insert(wake_fd),
        SetupPhase::CloseWake { epfd, wake_fd } => Multiset::singleton(epfd).insert(wake_fd),
        SetupPhase::CloseEpoll { epfd } => Multiset::singleton(epfd),
        SetupPhase::Ready(epoll) => Multiset::singleton(epoll.epfd).insert(epoll.wake_fd),
        SetupPhase::Failed => Multiset::empty(),
    }
}

/// How many calls a set-up still makes at most.
pub open spec fn setup_calls_left(buffers: Seq<i32>, phase: SetupPhase) -> nat {
    let n = buffers.len();
    match phase {
        SetupPhase::CreateEpoll => n + 5,
        SetupPhase::CreateWake { .. } => n + 4,
        SetupPhase::AddWake { .. } => n + 3,
        SetupPhase::AddBuffer { next, .. } => (n - next + 2) as nat,
        SetupPhase::CloseWake { .. } => 2,
        SetupPhase::CloseEpoll { .. } => 1,
        SetupPhase::Ready(_) => 0,
        SetupPhase::Failed => 0,
    }
}

/// A set-up ends: after as many calls as there are buffers and five more, the
/// set is ready or the set-up has failed.
pub proof fn law_setup_ends(buffers: Seq<i32>, phase: SetupPhase, replies: Seq<i32>)
    requires
        buffers.len() <= usize::MAX,
        setup_wf(buffers, phase),
        replies.len() >= setup_calls_left(buffers, phase),
    ensures
        ({
            let last = setup_run(buffers, phase, replies);
            last is Ready || last is Failed
        }),
    decreases replies.len(),
{
    if replies.len() > 0 {
        law_setup_ends(buffers, setup_next(buffers, phase, replies[0]), replies.drop_first());
    }
}

/// A set-up loses no descriptor: what it held and what it opened, it closed or
/// still holds. One that failed holds none, so it has closed all that it opened.
pub proof fn law_setup_leaks_nothing(buffers: Seq<i32>, phase: SetupPhase, replies: Seq<i32>)
    ensures
        setup_holds(phase).add(setup_opened(buffers, phase, replies)) == setup_closed(
            buffers,
            phase,
            replies,
        ).add(setup_holds(setup_run(buffers, phase, replies))),
    decreases replies.len(),
{
    broadcast use vstd::multiset::group_multiset_axioms;

    let before = setup_holds(phase).add(setup_opened(buffers, phase, replies));
    let after = setup_closed(buffers, phase, replies).add(
        setup_holds(setup_run(buffers, phase, replies)),
    );
    if replies.len() > 0 {
        law_setup_leaks_nothing(
            buffers,
            setup_next(buffers, phase, replies[0]),
            replies.drop_first(),
        );
        let next = setup_next(buffers, phase, replies[0]);
        let rest_before = setup_holds(next).add(setup_opened(buffers, next, replies.drop_first()));
        let rest_after = setup_closed(buffers, next, replies.drop_first()).add(
            setup_holds(setup_run(buffers, next, replies.drop_first())),
        );
        assert(rest_before == rest_after);
        assert forall|fd: i32| before.count(fd) == after.count(fd) by {
            assert(rest_before.count(fd) == rest_after.count(fd));
        }
    }
    assert(before =~= after);
}

/// Whether the wake-up could be registered in a set-up that came to be ready:
/// that is the third of its calls.
pub open spec fn wake_registered(replies: Seq<i32>) -> bool {
    replies[2] >= 0
}

/// A set that became ready waits, with its own descriptor, for every buffer under
/// its index, each once, and for nothing else but the wake-up under the marker,
/// where registering that did not fail.
pub proof fn law_setup_registers_all(buffers: Seq<i32>, replies: Seq<i32>)
    requires
        buffers.len() <= usize::MAX,
        setup_run(buffers, SetupPhase::CreateEpoll, replies) is Ready,
    ensures
        ({
            let epoll = setup_run(buffers, SetupPhase::CreateEpoll, replies)->Ready_0;
            &&& epoll.epfd >= 0
            &&& epoll.wake_fd >= 0
            &&& epoll.num_buffers == buffers.len()
            &&& setup_added(buffers, SetupPhase::CreateEpoll, replies) == if wake_registered(
                replies,
            ) {
                seq![(epoll.epfd, epoll.wake_fd, WAKE_EVENT_MARKER)]
            } else {
                Seq::empty()
            } + Seq::new(buffers.len(), |i: int| (epoll.epfd, buffers[i], i as u64))
        }),
{
    let start = SetupPhase::CreateEpoll;
    assert(replies.len() > 0);
    let first = setup_next(buffers, start, replies[0]);
    let rest = replies.drop_first();
    assert(setup_run(buffers, start, replies) == setup_run(buffers, first, rest));
    assert(setup_added(buffers, start, replies) == setup_added(buffers, first, rest));
    if !(first is CreateWake) {
        lemma_close_fails(buffers, first, rest);
    }
    assert(rest.len() > 0);
    let second = setup_next(buffers, first, rest[0]);
    let tail = rest.drop_first();
    assert(setup_run(buffers, first, rest) == setup_run(buffers, second, tail));
    assert(setup_added(buffers, first, rest) == setup_added(buffers, second, tail));
    if !(second is AddWake) {
        lemma_close_fails(buffers, second, tail);
    }
    assert(tail.len() > 0);
    assert(tail[0] == replies[2]);
    let epfd = second->AddWake_epfd;
    let wake_fd = second->AddWake_wake_fd;
    lemma_adds_rest(buffers, epfd, wake_fd, 0, tail.drop_first());
    let all = Seq::new(buffers.len(), |i: int| (epfd, buffers[i], i as u64));
    assert(Seq::new((buffers.len() - 0) as nat, |i: int| (epfd, buffers[0 + i], (0 + i) as u64))
        =~= all);
    assert(Seq::<(i32, i32, u64)>::empty() + all =~= all);
}

proof fn lemma_final_stays(buffers: Seq<i32>, phase: SetupPhase, replies: Seq<i32>)
    requires
        phase is Ready || phase is Failed,
    ensures
        setup_run(buffers, phase, replies) == phase,
        setup_added(buffers, phase, replies) == Seq::<(i32, i32, u64)>::empty(),
    decreases replies.len(),
{
    if replies.len() > 0 {
        lemma_final_stays(buffers, phase, replies.drop_first());
    }
}

proof fn lemma_close_fails(buffers: Seq<i32>, phase: SetupPhase, replies: Seq<i32>)
    requires
        phase is CloseEpoll || phase is CloseWake || phase is Failed,
    ensures
        !(setup_run(buffers, phase, replies) is Ready),
    decreases replies.len(),
{
    if replies.len() > 0 {
        lemma_close_fails(
            buffers,
            setup_next(buffers, phase, replies[0]),
            replies.drop_first(),
        );
    }
}

proof fn lemma_adds_rest(
    buffers: Seq<i32>,
    epfd: i32,
    wake_fd: i32,
    next: int,
    replies: Seq<i32>,
)
    requires
        0 <= next <= buffers.len() <= usize::MAX,
        setup_run(buffers, add_from(buffers, epfd, wake_fd, next), replies) is Ready,
    ensures
        setup_run(buffers, add_from(buffers, epfd, wake_fd, next), replies) == SetupPhase::Ready(
            epoll_over(buffers, epfd, wake_fd),
        ),
        setup_added(buffers, add_from(buffers, epfd, wake_fd, next), replies) == Seq::new(
            (buffers.len() - next) as nat,
            |i: int| (epfd, buffers[next + i], (next + i) as u64),
        ),
    decreases buffers.len() - next,
{
    let phase = add_from(buffers, epfd, wake_fd, next);
    let expected = Seq::new(
        (buffers.len() - next) as nat,
        |i: int| (epfd, buffers[next + i], (next + i) as u64),
    );
    if next < buffers.len() {
        assert(replies.len() > 0);
        if replies[0] < 0 {
            lemma_close_fails(
                buffers,
                SetupPhase::CloseWake { epfd, wake_fd },
                replies.drop_first(),
            );
        }
        lemma_adds_rest(buffers, epfd, wake_fd, next + 1, replies.drop_first());
        assert(setup_added(buffers, phase, replies) =~= expected);
    } else {
        lemma_final_stays(buffers, phase, replies);
        assert(expected =~= Seq::<(i32, i32, u64)>::empty());
    }
}

/// Giving up a set that became ready closes what its set-up left open.
pub proof fn law_giving_up_closes_all(buffers: Seq<i32>, replies: Seq<i32>)
    requires
        buffers.len() <= usize::MAX,
        setup_run(buffers, SetupPhase::CreateEpoll, replies) is Ready,
    ensures
        ({
            let last = setup_run(buffers, SetupPhase::CreateEpoll, replies);
            held_by(last->Ready_0).to_multiset() == setup_holds(last)
        }),
{
    law_setup_registers_all(buffers, replies);
    let epoll = setup_run(buffers, SetupPhase::CreateEpoll, replies)->Ready_0;
    broadcast use vstd::seq_lib::group_to_multiset_ensures;

    assert(held_by(epoll) =~= Seq::empty().push(epoll.epfd).push(epoll.wake_fd));
    assert(held_by(epoll).to_multiset() =~= setup_holds(SetupPhase::Ready(epoll)));
}

/// A buffer's token is not the marker and leads back to the buffer.
pub proof fn law_tokens_identify(index: usize, count: usize)
    requires
        index < count,
    ensures
        index as u64 != WAKE_EVENT_MARKER,
        (index as u64) as usize == index,
{
}

/// Whether a wait reports only what is registered: each token once, and none
/// under which nothing is registered.
pub open spec fn reports(added: Seq<(i32, i32, u64)>, tokens: Seq<u64>) -> bool {
    &&& tokens.no_duplicates()
    &&& forall|i: int|
        0 <= i < tokens.len() ==> exists|j: int|
            0 <= j < added.len() && (#[trigger] added[j]).2 == #[trigger] tokens[i]
}

/// A wait on a set that became ready names buffers of the set: where it does not
/// report the wake-up, its indices are below the number of buffers, each is the
/// index of the buffer that is registered under the token, none comes twice, and
/// so there are at most as many as there are buffers.
pub proof fn law_wait_names_buffers(buffers: Seq<i32>, replies: Seq<i32>, tokens: Seq<u64>)
    requires
        buffers.len() <= usize::MAX,
        setup_run(buffers, SetupPhase::CreateEpoll, replies) is Ready,
        reports(setup_added(buffers, SetupPhase::CreateEpoll, replies), tokens),
        !tokens.contains(WAKE_EVENT_MARKER),
    ensures
        ({
            let added = setup_added(buffers, SetupPhase::CreateEpoll, replies);
            let indices = buffer_indices(tokens);
            &&& indices.len() == tokens.len() <= buffers.len()
            &&& indices.no_duplicates()
            &&& forall|i: int|
                0 <= i < indices.len() ==> (#[trigger] indices[i]) < buffers.len()
                    && added.contains(
                    (
                        setup_run(buffers, SetupPhase::CreateEpoll, replies)->Ready_0.epfd,
                        buffers[indices[i] as int],
                        tokens[i],
                    ),
                )
        }),
{
    law_setup_registers_all(buffers, replies);
    let added = setup_added(buffers, SetupPhase::CreateEpoll, replies);
    let epfd = setup_run(buffers, SetupPhase::CreateEpoll, replies)->Ready_0.epfd;
    let all = Seq::new(buffers.len(), |i: int| (epfd, buffers[i], i as u64));
    let indices = buffer_indices(tokens);
    let lead = added.len() - all.len();
    assert forall|i: int| 0 <= i < indices.len() implies (#[trigger] indices[i]) < buffers.len()
        && indices[i] as u64 == tokens[i] && added.contains(
        (epfd, buffers[indices[i] as int], tokens[i]),
    ) by {
        assert(tokens.contains(tokens[i]));
        let j = choose|j: int|
            0 <= j < added.len() && (#[trigger] added[j]).2 == #[trigger] tokens[i];
        assert(added[j] == all[j - lead]);
    }
    assert forall|i: int, j: int| 0 <= i < indices.len() && 0 <= j < indices.len() && i
        != j implies indices[i] != indices[j] by {
        assert(tokens[i] != tokens[j]);
    }
    lemma_distinct_below(indices, buffers.len() as int);
}

proof fn lemma_distinct_below(indices: Seq<usize>, bound: int)
    requires
        0 <= bound,
        indices.no_duplicates(),
        forall|i: int| 0 <= i < indices.len() ==> (#[trigger] indices[i]) < bound,
    ensures
        indices.len() <= bound,
{
    let numbers = indices.map_values(|index: usize| index as int);
    assert(numbers.no_duplicates());
    numbers.unique_seq_to_set();
    vstd::set_lib::lemma_int_range(0, bound);
    let range = vstd::set_lib::set_int_range(0, bound);
    assert(numbers.to_set().subset_of(range));
    vstd::set_lib::lemma_len_subset(numbers.to_set(), range);
}

/// Whether something was written to `fd` that makes it readable. A set-up and a
/// wait never read from the wake-up descriptor, so it then stays so.
pub open spec fn woken_through(fd: i32, wakes: Seq<WakeWrite>) -> bool {
    exists|i: int| 0 <= i < wakes.len() && (#[trigger] wakes[i]).fd == fd && wakes[i].value > 0
}

/// Whether a wait that reports `tokens` shows the writes `wakes`: what they made
/// readable is reported under all that it is registered under.
pub open spec fn shows_wakes(
    added: Seq<(i32, i32, u64)>,
    wakes: Seq<WakeWrite>,
    tokens: Seq<u64>,
) -> bool {
    forall|j: int|
        0 <= j < added.len() && woken_through((#[trigger] added[j]).1, wakes) ==> tokens.contains(
            added[j].2,
        )
}

/// A wake-up is not used up: once [`Epoll::wake`] was performed, one time or
/// more, every wait that reports what is readable amounts to a wake-up, be it the
/// first or a later one, and whatever else it reports.
pub proof fn law_wake_up_lasts(
    buffers: Seq<i32>,
    replies: Seq<i32>,
    wakes: Seq<WakeWrite>,
    waits: Seq<Vec<u64>>,
    steps: Seq<PollStep>,
)
    requires
        buffers.len() <= usize::MAX,
        setup_run(buffers, SetupPhase::CreateEpoll, replies) is Ready,
        wake_registered(replies),
        wakes.contains(
            wake_write(setup_run(buffers, SetupPhase::CreateEpoll, replies)->Ready_0),
        ),
        waits.len() == steps.len(),
        forall|i: int|
            0 <= i < waits.len() ==> shows_wakes(
                setup_added(buffers, SetupPhase::CreateEpoll, replies),
                wakes,
                #[trigger] waits[i]@,
            ),
        forall|i: int|
            0 <= i < waits.len() ==> amounts_to(
                WaitOutcome::Ready(waits[i]),
                #[trigger] steps[i],
            ),
    ensures
        forall|i: int| 0 <= i < steps.len() ==> #[trigger] steps[i] == PollStep::Woken,
{
    law_setup_registers_all(buffers, replies);
    let epoll = setup_run(buffers, SetupPhase::CreateEpoll, replies)->Ready_0;
    let added = setup_added(buffers, SetupPhase::CreateEpoll, replies);
    assert(added[0] == (epoll.epfd, epoll.wake_fd, WAKE_EVENT_MARKER));
    let k = choose|k: int| 0 <= k < wakes.len() && wakes[k] == wake_write(epoll);
    assert(woken_through(added[0].1, wakes));
    assert forall|i: int| 0 <= i < steps.len() implies #[trigger] steps[i] == PollStep::Woken by {
        assert(shows_wakes(added, wakes, waits[i]@));
        assert(waits[i]@.contains(added[0].2));
    }
}

/// Whether the calls of a set-up over so many buffers that matter to it succeed,
/// as far as `replies` go: all but the third, which registers the wake-up.
pub open spec fn calls_succeed(count: nat, replies: Seq<i32>) -> bool {
    forall|i: int|
        0 <= i < replies.len() && i < count + 3 && i != 2 ==> #[trigger] replies[i] >= 0
}

/// As long as its calls succeed, a set-up creates its two descriptors, registers
/// the wake-up under the greatest index there is and then every buffer, in order,
/// under its own index; after that the set is ready, with the descriptors that the
/// first two calls returned.
pub proof fn law_setup_calls_in_order(buffers: Seq<i32>, replies: Seq<i32>)
    requires
        buffers.len() <= usize::MAX,
        calls_succeed(buffers.len(), replies),
    ensures
        ({
            let action = setup_action(
                buffers,
                setup_run(buffers, SetupPhase::CreateEpoll, replies),
            );
            let k = replies.len();
            &&& k == 0 ==> action == SetupAction::CreateEpoll
            &&& k == 1 ==> action == SetupAction::CreateWake
            &&& k == 2 ==> action == (SetupAction::Add {
                epfd: replies[0],
                fd: replies[1],
                token: usize::MAX as u64,
            })
            &&& 3 <= k < buffers.len() + 3 ==> action == (SetupAction::Add {
                epfd: replies[0],
                fd: buffers[k - 3],
                token: (k - 3) as u64,
            })
            &&& k >= buffers.len() + 3 ==> action == SetupAction::Done(
                (Epoll {
                    epfd: replies[0],
                    wake_fd: replies[1],
                    num_buffers: buffers.len() as usize,
                }),
            )
        }),
{
    lemma_successful_run(buffers, replies);
}

/// A set-up whose calls all succeed becomes ready, however many buffers there are
/// and however registering the wake-up goes.
pub proof fn law_successful_setup_is_ready(buffers: Seq<i32>, replies: Seq<i32>)
    requires
        buffers.len() <= usize::MAX,
        replies.len() >= buffers.len() + 3,
        forall|i: int| 0 <= i < buffers.len() + 3 && i != 2 ==> #[trigger] replies[i] >= 0,
    ensures
        setup_run(buffers, SetupPhase::CreateEpoll, replies) == SetupPhase::Ready(
            (Epoll {
                epfd: replies[0],
                wake_fd: replies[1],
                num_buffers: buffers.len() as usize,
            }),
        ),
{
    lemma_successful_run(buffers, replies);
}

/// A set-up fails, or begins to give up, only if creating a descriptor or
/// registering a buffer failed.
pub proof fn law_setup_fails_only_on_failure(buffers: Seq<i32>, replies: Seq<i32>)
    requires
        buffers.len() <= usize::MAX,
        ({
            let phase = setup_run(buffers, SetupPhase::CreateEpoll, replies);
            phase is Failed || phase is CloseWake || phase is CloseEpoll
        }),
    ensures
        exists|i: int|
            0 <= i < replies.len() && i < buffers.len() + 3 && i != 2 && #[trigger] replies[i] < 0,
{
    if calls_succeed(buffers.len(), replies) {
        lemma_successful_run(buffers, replies);
    }
}

/// When a call that matters fails, the set-up closes what it opened, the wake-up
/// first, and fails, however closing goes.
pub proof fn law_failed_call_ends_setup(
    buffers: Seq<i32>,
    replies: Seq<i32>,
    reply: i32,
    first: i32,
    second: i32,
)
    requires
        buffers.len() <= usize::MAX,
        replies.len() < buffers.len() + 3,
        replies.len() != 2,
        calls_succeed(buffers.len(), replies),
        reply < 0,
    ensures
        ({
            let failed = setup_run(buffers, SetupPhase::CreateEpoll, replies.push(reply));
            let then = setup_next(buffers, failed, first);
            let at_last = setup_next(buffers, then, second);
            let k = replies.len();
            &&& k == 0 ==> setup_action(buffers, failed) == SetupAction::Fail
            &&& k == 1 ==> {
                &&& setup_action(buffers, failed) == SetupAction::Close(replies[0])
                &&& setup_action(buffers, then) == SetupAction::Fail
            }
            &&& k >= 3 ==> {
                &&& setup_action(buffers, failed) == SetupAction::Close(replies[1])
                &&& setup_action(buffers, then) == SetupAction::Close(replies[0])
                &&& setup_action(buffers, at_last) == SetupAction::Fail
            }
        }),
{
    lemma_successful_run(buffers, replies);
    lemma_run_push(buffers, SetupPhase::CreateEpoll, replies, reply);
}

/// Once a set is ready or its set-up has failed, nothing changes that.
pub proof fn law_setup_end_is_final(buffers: Seq<i32>, phase: SetupPhase, reply: i32)
    requires
        ({
            let action = setup_action(buffers, phase);
            action is Done || action is Fail
        }),
    ensures
        setup_next(buffers, phase, reply) == phase,
{
}

/// Closing a descriptor never brings a set-up back to work: whatever stage it was
/// closed in, at most one more is closed, and the set-up fails.
pub proof fn law_closing_leads_to_failure(
    buffers: Seq<i32>,
    epfd: i32,
    wake_fd: i32,
    first: i32,
    second: i32,
)
    ensures
        setup_action(buffers, SetupPhase::CloseWake { epfd, wake_fd }) == SetupAction::Close(
            wake_fd,
        ),
        setup_next(buffers, SetupPhase::CloseWake { epfd, wake_fd }, first)
            == (SetupPhase::CloseEpoll { epfd }),
        setup_action(buffers, SetupPhase::CloseEpoll { epfd }) == SetupAction::Close(epfd),
        setup_action(
            buffers,
            setup_next(buffers, SetupPhase::CloseEpoll { epfd }, second),
        ) == SetupAction::Fail,
{
}

proof fn lemma_successful_run(buffers: Seq<i32>, replies: Seq<i32>)
    requires
        buffers.len() <= usize::MAX,
        calls_succeed(buffers.len(), replies),
    ensures
        ({
            let phase = setup_run(buffers, SetupPhase::CreateEpoll, replies);
            let k = replies.len();
            &&& k == 0 ==> phase == SetupPhase::CreateEpoll
            &&& k == 1 ==> phase == (SetupPhase::CreateWake { epfd: replies[0] })
            &&& k == 2 ==> phase == (SetupPhase::AddWake { epfd: replies[0], wake_fd: replies[1] })
            &&& 3 <= k < buffers.len() + 3 ==> phase == (SetupPhase::AddBuffer {
                epfd: replies[0],
                wake_fd: replies[1],
                next: (k - 3) as usize,
            })
            &&& k >= buffers.len() + 3 ==> phase == SetupPhase::Ready(
                epoll_over(buffers, replies[0], replies[1]),
            )
        }),
    decreases replies.len(),
{
    if replies.len() > 0 {
        let before = replies.drop_last();
        assert forall|i: int|
            0 <= i < before.len() && i < buffers.len() + 3 && i != 2 implies #[trigger] before[i]
            >= 0 by {
            assert(before[i] == replies[i]);
        }
        lemma_successful_run(buffers, before);
        lemma_run_push(buffers, SetupPhase::CreateEpoll, before, replies.last());
        assert(before.push(replies.last()) =~= replies);
        let k = before.len() as int;
        assert(k < buffers.len() + 3 && k != 2 ==> replies[k] >= 0);
    }
}

proof fn lemma_run_push(buffers: Seq<i32>, phase: SetupPhase, replies: Seq<i32>, reply: i32)
    ensures
        setup_run(buffers, phase, replies.push(reply)) == setup_next(
            buffers,
            setup_run(buffers, phase, replies),
            reply,
        ),
    decreases replies.len(),
{
    let all = replies.push(reply);
    if replies.len() > 0 {
        let next = setup_next(buffers, phase, replies[0]);
        lemma_run_push(buffers, next, replies.drop_first(), reply);
        assert(all.drop_first() =~= replies.drop_first().push(reply));
    } else {
        assert(all.drop_first() =~= Seq::<i32>::empty());
        assert(setup_run(buffers, setup_next(buffers, phase, reply), all.drop_first())
            == setup_next(buffers, phase, reply));
    }
}

/// What a wait amounts to is told by what it reported: a wake-up whenever the
/// greatest index is among the tokens, and otherwise every token, in order, as the
/// index that it is.
pub proof fn law_waits_are_told(wait: WaitOutcome, step: PollStep)
    requires
        amounts_to(wait, step),
    ensures
        wait is Interrupted <==> step is Retry,
        wait matches WaitOutcome::Failed(code) ==> step == PollStep::Failed(code),
        step is Failed ==> wait is Failed,
        step is Woken <==> wait is Ready && wait->Ready_0@.contains(usize::MAX as u64),
        step is Readable <==> wait is Ready && !wait->Ready_0@.contains(usize::MAX as u64),
        step is Readable ==> {
            let tokens = wait->Ready_0@;
            let indices = step->Readable_0@;
            &&& indices.len() == tokens.len()
            &&& forall|i: int|
                0 <= i < tokens.len() ==> #[trigger] indices[i] == tokens[i] as usize
        },
{
}

/// A wake-up is written to the wake-up descriptor and is not zero, which would wake
/// nobody; giving up a set closes both of its descriptors, unless one of them was
/// never opened.
pub proof fn law_wake_up_and_release(epoll: Epoll)
    ensures
        wake_write(epoll).fd == epoll.wake_fd,
        wake_write(epoll).value == 1,
        epoll.epfd >= 0 && epoll.wake_fd >= 0 ==> held_by(epoll).len() == 2 && held_by(epoll)[0]
            == epoll.epfd && held_by(epoll)[1] == epoll.wake_fd,
        epoll.epfd < 0 || epoll.wake_fd < 0 ==> held_by(epoll).len() == 0,
{
}

} // verus!
