//! The daemon's watch over the exec hook: reading perf buffers and choosing the
//! processes to challenge.

use crate::event::{
    holds_record, law_any_record_is_read, record_content, EventView, SecurityEvent,
};
use crate::octets::{same_bytes, u32_value, until_nul, ByteOrder};
use crate::policy::CGROUP_NON_INTERACTIVE;
use crate::poll::PollStep;
use crate::tty::{has_pty, law_pty_is_under_dev_pts, on_pty, tty_of};
use bytes::BytesMut;
use vstd::prelude::*;
use vstd::string::*;

verus! {

/// How many records one read of a perf buffer has room for.
pub const MAX_BUFFERS: usize = 64;

/// The growable byte buffer of the `bytes` crate, which perf buffers are read
/// into.
#[verifier::external_type_specification]
#[verifier::external_body]
pub struct ExBytesMut(bytes::BytesMut);

/// The bytes that a buffer holds.
pub uninterp spec fn buffer_contents(buffer: bytes::BytesMut) -> Seq<u8>;

/// Borrows the bytes of a buffer through `BytesMut::as_ref`, which hands out
/// all of them in order and changes nothing.
#[verifier::external_body]
fn buffer_bytes(buffer: &BytesMut) -> (bytes: &[u8])
    ensures
        bytes@ == buffer_contents(*buffer),
{
    buffer.as_ref()
}

/// The shells that are challenged.
pub open spec fn is_challenged_shell(path: Seq<u8>) -> bool {
    path == "/bin/bash".spec_bytes() || path == "/usr/bin/bash".spec_bytes()
}

/// Whether an event calls for a challenge if its process has a pseudo-terminal:
/// the kernel took it for a shell, it is one that is challenged, and it runs in
/// the non-interactive group.
pub open spec fn suspicious(event: EventView) -> bool {
    &&& event.is_shell
    &&& is_challenged_shell(until_nul(event.filename))
    &&& event.cgroup_type == CGROUP_NON_INTERACTIVE
}

/// What the daemon makes of a record.
#[derive(Debug, Clone, Copy, PartialEq, Eq)]
pub enum EventDecision {
    /// The bytes hold no record.
    Malformed,
    /// The event needs nothing.
    Ignore(SecurityEvent),
    /// Whether to challenge the process depends on its terminal.
    InspectTty(SecurityEvent),
}

/// Whether `decision` is what the daemon makes of the record in `bytes`.
pub open spec fn decides(bytes: Seq<u8>, order: ByteOrder, decision: EventDecision) -> bool {
    match decision {
        EventDecision::Malformed => !holds_record(bytes),
        EventDecision::Ignore(event) => {
            &&& holds_record(bytes)
            &&& event@ == record_content(bytes, order)
            &&& !suspicious(event@)
        },
        EventDecision::InspectTty(event) => {
            &&& holds_record(bytes)
            &&& event@ == record_content(bytes, order)
            &&& suspicious(event@)
        },
    }
}

/// Says what the daemon makes of the record that `bytes` start with.
pub fn handle_record(bytes: &[u8], order: ByteOrder) -> (decision: EventDecision)
    ensures
        decides(bytes@, order, decision),
{
    let event = match SecurityEvent::from_record(bytes, order) {
        Some(event) => event,
        None => return EventDecision::Malformed,
    };
    if is_suspicious(&event) {
        EventDecision::InspectTty(event)
    } else {
        EventDecision::Ignore(event)
    }
}

fn is_suspicious(event: &SecurityEvent) -> (yes: bool)
    ensures
        yes == suspicious(event@),
{
    let path = event.filename();
    event._is_shell && (same_bytes(path, "/bin/bash".as_bytes()) || same_bytes(
        path,
        "/usr/bin/bash".as_bytes(),
    )) && event._cgroup_type == CGROUP_NON_INTERACTIVE
}

/// Says what the daemon makes of the record that a perf buffer delivered.
pub fn handle_security_event(buffer: &BytesMut, order: ByteOrder) -> (decision: EventDecision)
    ensures
        decides(buffer_contents(*buffer), order, decision),
{
    handle_record(buffer_bytes(buffer), order)
}

/// The process to challenge for `event`, when reading the link to the input of its
/// process led to `target`.
pub open spec fn target_of(event: EventView, target: Result<String, String>) -> Option<u32> {
    if suspicious(event) && on_pty(tty_of(event.pid, target)) {
        Some(event.pid)
    } else {
        None
    }
}

/// The process to challenge for an event, given what reading the link to the
/// input of that process led to: the one that opened a suspicious shell on a
/// pseudo-terminal.
pub fn reauth_target(event: &SecurityEvent, target: Result<String, String>) -> (chosen: Option<u32>)
    ensures
        chosen == if suspicious(event@) && on_pty(tty_of(event@.pid, target)) {
            Some(event@.pid)
        } else {
            None
        },
        chosen != Some(0u32),
        chosen == target_of(event@, target),
{
    if is_suspicious(event) && has_pty(event._pid, target) {
        Some(event._pid)
    } else {
        None
    }
}

/// How reading a perf buffer went.
#[derive(Debug, Clone, Copy, PartialEq, Eq)]
pub enum ReadOutcome {
    /// So many records were read, and so many were lost before them.
    Events { read: usize, lost: usize },
    /// The buffer could not be read.
    Failed,
}

/// Why the watch ended.
#[derive(Debug, Clone, Copy, PartialEq, Eq)]
pub enum StopReason {
    Woken,
    /// Waiting failed, with the error code.
    WaitFailed(i32),
}

/// How a watch keeps what it has still to do.
#[derive(Debug, PartialEq, Eq)]
enum WatchPhase {
    /// Waiting for a buffer that can be read.
    Waiting,
    /// Reading buffers: those in `queue` from `at` on are still to be read.
    Reading { queue: Vec<usize>, at: usize },
    /// As many records as `count` were read from the buffer at `at`.
    Handling { queue: Vec<usize>, at: usize, count: usize, lost: usize },
    /// The watch is over.
    Stopped(StopReason),
}

/// What a watch does next, whose outcome is handed to
/// [`Watch::step`].
#[derive(Debug, Clone, Copy, PartialEq, Eq)]
pub enum WatchAction {
    /// Wait for a buffer that can be read.
    Wait,
    /// Read from this buffer.
    Read { buffer: usize },
    /// Handle the first `count` records that were read from this buffer, before
    /// which so many were lost.
    Handle { buffer: usize, count: usize, lost: usize },
    /// Nothing: the watch is over.
    Stop(StopReason),
}

/// How the action of a watch went.
#[derive(Debug, PartialEq, Eq)]
pub enum WatchInput {
    Polled(PollStep),
    Read(ReadOutcome),
    Handled,
}

/// A watch over `buffers` perf buffers, each read into room for `capacity`
/// records at a time.
#[derive(Debug, PartialEq, Eq)]
pub struct Watch {
    buffers: usize,
    capacity: usize,
    phase: WatchPhase,
}

/// How far a watch has come: the buffers that are still to be read are a
/// sequence, of which the first is the current one.
#[verifier::ext_equal]
pub enum WatchView {
    Waiting,
    Reading { left: Seq<usize> },
    Handling { left: Seq<usize>, count: usize, lost: usize },
    Stopped(StopReason),
}

impl View for WatchPhase {
    type V = WatchView;

    closed spec fn view(&self) -> WatchView {
        match *self {
            WatchPhase::Waiting => WatchView::Waiting,
            WatchPhase::Reading { queue, at } => WatchView::Reading { left: queue@.skip(at as int) },
            WatchPhase::Handling { queue, at, count, lost } => WatchView::Handling {
                left: queue@.skip(at as int),
                count,
                lost,
            },
            WatchPhase::Stopped(reason) => WatchView::Stopped(reason),
        }
    }
}

/// The buffers among `indices` that exist, in their order.
pub open spec fn existing(indices: Seq<usize>, buffers: usize) -> Seq<usize> {
    indices.filter(|index: usize| index < buffers)
}

/// Reading what is left, or waiting when nothing is.
pub open spec fn read_left(left: Seq<usize>) -> WatchView {
    if left.len() == 0 {
        WatchView::Waiting
    } else {
        WatchView::Reading { left }
    }
}

/// The smaller of two counts.
pub open spec fn at_most(count: usize, limit: usize) -> usize {
    if count <= limit {
        count
    } else {
        limit
    }
}

/// How a watch goes on. A buffer is read until it yields nothing more or fails,
/// then the next one is. An outcome of something that was not asked for
/// changes nothing.
pub open spec fn watch_next(
    buffers: usize,
    capacity: usize,
    phase: WatchView,
    input: WatchInput,
) -> WatchView {
    match (phase, input) {
        (WatchView::Waiting, WatchInput::Polled(step)) => match step {
            PollStep::Retry => WatchView::Waiting,
            PollStep::Readable(indices) => read_left(existing(indices@, buffers)),
            PollStep::Woken => WatchView::Stopped(StopReason::Woken),
            PollStep::Failed(code) => WatchView::Stopped(StopReason::WaitFailed(code)),
        },
        (WatchView::Reading { left }, WatchInput::Read(outcome)) => match outcome {
            ReadOutcome::Events { read, lost } => if read == 0 {
                read_left(left.drop_first())
            } else {
                WatchView::Handling { left, count: at_most(read, capacity), lost }
            },
            ReadOutcome::Failed => read_left(left.drop_first()),
        },
        (WatchView::Handling { left, count, lost }, WatchInput::Handled) => WatchView::Reading {
            left,
        },
        _ => phase,
    }
}

/// What a watch does in `phase`.
pub open spec fn watch_action(phase: WatchView) -> WatchAction {
    match phase {
        WatchView::Waiting => WatchAction::Wait,
        WatchView::Reading { left } => WatchAction::Read { buffer: left[0] },
        WatchView::Handling { left, count, lost } => WatchAction::Handle {
            buffer: left[0],
            count,
            lost,
        },
        WatchView::Stopped(reason) => WatchAction::Stop(reason),
    }
}

/// Whether a watch can be in `phase`: what it reads exists, and what it handles
/// was read into the room for it.
pub open spec fn watch_wf(buffers: usize, capacity: usize, phase: WatchView) -> bool {
    match phase {
        WatchView::Reading { left } => {
            &&& left.len() > 0
            &&& forall|i: int| 0 <= i < left.len() ==> left[i] < buffers
        },
        WatchView::Handling { left, count, lost } => {
            &&& left.len() > 0
            &&& forall|i: int| 0 <= i < left.len() ==> left[i] < buffers
            &&& count <= capacity
        },
        _ => true,
    }
}

/// Picks the buffers among `indices` that exist.
fn existing_of(indices: &Vec<usize>, buffers: usize) -> (queue: Vec<usize>)
    ensures
        queue@ == existing(indices@, buffers),
{
    let ghost exists_there = |index: usize| index < buffers;
    let mut queue: Vec<usize> = Vec::new();
    let mut i: usize = 0;
    assert(indices@.take(0).filter(exists_there) =~= Seq::<usize>::empty()) by {
        reveal(Seq::filter);
    }
    while i < indices.len()
        invariant
            i <= indices@.len(),
            exists_there == (|index: usize| index < buffers),
            queue@ == indices@.take(i as int).filter(exists_there),
        decreases indices@.len() - i,
    {
        proof {
            reveal(Seq::filter);
            assert(indices@.take(i + 1).drop_last() =~= indices@.take(i as int));
        }
        if indices[i] < buffers {
            queue.push(indices[i]);
        }
        i = i + 1;
    }
    assert(indices@.take(i as int) =~= indices@);
    queue
}

/// Goes on to the buffer behind the one at `at`.
fn next_buffer(queue: Vec<usize>, at: usize) -> (phase: WatchPhase)
    requires
        at < queue@.len(),
    ensures
        phase@ == read_left(queue@.skip(at as int).drop_first()),
        phase matches WatchPhase::Reading { queue: q, at: a } ==> a < q@.len(),
        !(phase is Handling),
{
    assert(queue@.skip(at + 1) =~= queue@.skip(at as int).drop_first());
    if queue.len() - at > 1 {
        WatchPhase::Reading { queue, at: at + 1 }
    } else {
        WatchPhase::Waiting
    }
}

impl Watch {
    #[verifier::type_invariant]
    spec fn inv(&self) -> bool {
        &&& watch_wf(self.buffers, self.capacity, self.phase@)
        &&& self.phase matches WatchPhase::Reading { queue, at } ==> at < queue@.len()
        &&& self.phase matches WatchPhase::Handling { queue, at, .. } ==> at < queue@.len()
    }

    /// How many perf buffers there are.
    pub closed spec fn count(&self) -> usize {
        self.buffers
    }

    /// How many records one read has room for.
    pub closed spec fn room(&self) -> usize {
        self.capacity
    }

    /// How far the watch has come.
    pub closed spec fn stage(&self) -> WatchView {
        self.phase@
    }

    /// Starts a watch over so many perf buffers, with room for so many records.
    pub fn new(buffers: usize, capacity: usize) -> (watch: Watch)
        ensures
            watch.count() == buffers,
            watch.room() == capacity,
            watch.stage() == WatchView::Waiting,
    {
        Watch { buffers, capacity, phase: WatchPhase::Waiting }
    }

    /// What to do now.
    pub fn action(&self) -> (action: WatchAction)
        ensures
            watch_wf(self.count(), self.room(), self.stage()),
            action == watch_action(self.stage()),
    {
        proof {
            use_type_invariant(self);
        }
        match &self.phase {
            WatchPhase::Waiting => WatchAction::Wait,
            WatchPhase::Reading { queue, at } => WatchAction::Read { buffer: queue[*at] },
            WatchPhase::Handling { queue, at, count, lost } => WatchAction::Handle {
                buffer: queue[*at],
                count: *count,
                lost: *lost,
            },
            WatchPhase::Stopped(reason) => WatchAction::Stop(*reason),
        }
    }

    /// Takes note of how the action went.
    pub fn step(self, input: WatchInput) -> (next: Watch)
        ensures
            next.count() == self.count(),
            next.room() == self.room(),
            next.stage() == watch_next(self.count(), self.room(), self.stage(), input),
    {
        proof {
            use_type_invariant(&self);
            lemma_watch_wf(self.buffers, self.capacity, self.phase@, input);
        }
        let buffers = self.buffers;
        let capacity = self.capacity;
        let phase = match (self.phase, input) {
            (WatchPhase::Waiting, WatchInput::Polled(PollStep::Readable(indices))) => {
                let queue = existing_of(&indices, buffers);
                assert(queue@.skip(0) =~= queue@);
                if queue.len() == 0 {
                    WatchPhase::Waiting
                } else {
                    WatchPhase::Reading { queue, at: 0 }
                }
            },
            (WatchPhase::Waiting, WatchInput::Polled(PollStep::Woken)) => {
                WatchPhase::Stopped(StopReason::Woken)
            },
            (WatchPhase::Waiting, WatchInput::Polled(PollStep::Failed(code))) => {
                WatchPhase::Stopped(StopReason::WaitFailed(code))
            },
            (WatchPhase::Reading { queue, at }, WatchInput::Read(outcome)) => match outcome {
                ReadOutcome::Events { read, lost } => if read == 0 {
                    next_buffer(queue, at)
                } else {
                    let count = if read <= capacity {
                        read
                    } else {
                        capacity
                    };
                    WatchPhase::Handling { queue, at, count, lost }
                },
                ReadOutcome::Failed => next_buffer(queue, at),
            },
            (WatchPhase::Handling { queue, at, .. }, WatchInput::Handled) => {
                WatchPhase::Reading { queue, at }
            },
            (phase, _) => phase,
        };
        Watch { buffers, capacity, phase }
    }
}

proof fn lemma_watch_wf(buffers: usize, capacity: usize, phase: WatchView, input: WatchInput)
    requires
        watch_wf(buffers, capacity, phase),
    ensures
        watch_wf(buffers, capacity, watch_next(buffers, capacity, phase, input)),
{
    if let (WatchView::Waiting, WatchInput::Polled(PollStep::Readable(indices))) = (phase, input) {
        let exists_there = |index: usize| index < buffers;
        let left = existing(indices@, buffers);
        assert forall|i: int| 0 <= i < left.len() implies left[i] < buffers by {
            indices@.lemma_filter_pred(exists_there, i);
        }
    }
}

/// Where a watch stands after `inputs`.
pub open spec fn watch_run(
    buffers: usize,
    capacity: usize,
    phase: WatchView,
    inputs: Seq<WatchInput>,
) -> WatchView
    decreases inputs.len(),
{
    if inputs.len() == 0 {
        phase
    } else {
        watch_run(
            buffers,
            capacity,
            watch_next(buffers, capacity, phase, inputs[0]),
            inputs.drop_first(),
        )
    }
}

/// The buffers that a watch has still to read.
pub open spec fn left_of(phase: WatchView) -> Seq<usize> {
    match phase {
        WatchView::Reading { left } => left,
        WatchView::Handling { left, .. } => left,
        _ => Seq::empty(),
    }
}

/// Whether reading a buffer ended it: there was nothing more, or it failed.
pub open spec fn ends_buffer(outcome: ReadOutcome) -> bool {
    match outcome {
        ReadOutcome::Events { read, .. } => read == 0,
        ReadOutcome::Failed => true,
    }
}

/// The buffers that a watch read to their end in the course of `inputs`.
pub open spec fn buffers_ended(
    buffers: usize,
    capacity: usize,
    phase: WatchView,
    inputs: Seq<WatchInput>,
) -> Seq<usize>
    decreases inputs.len(),
{
    if inputs.len() == 0 {
        Seq::empty()
    } else {
        let rest = buffers_ended(
            buffers,
            capacity,
            watch_next(buffers, capacity, phase, inputs[0]),
            inputs.drop_first(),
        );
        match (phase, inputs[0]) {
            (WatchView::Reading { left }, WatchInput::Read(outcome)) => if ends_buffer(outcome) {
                seq![left[0]] + rest
            } else {
                rest
            },
            _ => rest,
        }
    }
}

/// A watch that is not over reads and handles only what is there: the buffer
/// exists, and no more records are handled than there is room for.
pub proof fn law_watch_stays_in_bounds(
    buffers: usize,
    capacity: usize,
    phase: WatchView,
    inputs: Seq<WatchInput>,
)
    requires
        watch_wf(buffers, capacity, phase),
    ensures
        ({
            let last = watch_run(buffers, capacity, phase, inputs);
            &&& watch_wf(buffers, capacity, last)
            &&& watch_action(last) matches WatchAction::Read { buffer } ==> buffer < buffers
            &&& watch_action(last) matches WatchAction::Handle { buffer, count, .. } ==> buffer
                < buffers && count <= capacity
        }),
    decreases inputs.len(),
{
    if inputs.len() > 0 {
        lemma_watch_wf(buffers, capacity, phase, inputs[0]);
        law_watch_stays_in_bounds(
            buffers,
            capacity,
            watch_next(buffers, capacity, phase, inputs[0]),
            inputs.drop_first(),
        );
    }
}

/// No readable buffer is passed over: until the next wait ends, the buffers that
/// were read to their end and those still to be read are the ones that were to
/// be read, in their order.
pub proof fn law_no_buffer_is_passed_over(
    buffers: usize,
    capacity: usize,
    phase: WatchView,
    inputs: Seq<WatchInput>,
)
    requires
        watch_wf(buffers, capacity, phase),
        forall|i: int| 0 <= i < inputs.len() ==> !(#[trigger] inputs[i] is Polled),
    ensures
        buffers_ended(buffers, capacity, phase, inputs) + left_of(
            watch_run(buffers, capacity, phase, inputs),
        ) == left_of(phase),
    decreases inputs.len(),
{
    if inputs.len() > 0 {
        let next = watch_next(buffers, capacity, phase, inputs[0]);
        let rest = inputs.drop_first();
        lemma_watch_wf(buffers, capacity, phase, inputs[0]);
        assert forall|i: int| 0 <= i < rest.len() implies !(#[trigger] rest[i] is Polled) by {
            assert(!(inputs[i + 1] is Polled));
        }
        law_no_buffer_is_passed_over(buffers, capacity, next, rest);
        assert(!(inputs[0] is Polled));
        let ended = buffers_ended(buffers, capacity, next, rest);
        let end = left_of(watch_run(buffers, capacity, next, rest));
        assert(ended + end == left_of(next));
        if let (WatchView::Reading { left }, WatchInput::Read(outcome)) = (phase, inputs[0]) {
            if ends_buffer(outcome) {
                assert(left_of(next) =~= left.drop_first());
                assert(seq![left[0]] + ended + end =~= seq![left[0]] + (ended + end));
            }
        }
        assert(buffers_ended(buffers, capacity, phase, inputs) + left_of(
            watch_run(buffers, capacity, phase, inputs),
        ) =~= left_of(phase));
    }
}

/// Whether `input` is the outcome of what a watch does in `phase`, and a read
/// filled no more than the room for it.
pub open spec fn answers(capacity: usize, phase: WatchView, input: WatchInput) -> bool {
    match (phase, input) {
        (WatchView::Waiting, WatchInput::Polled(_)) => true,
        (WatchView::Reading { .. }, WatchInput::Read(outcome)) => {
            outcome matches ReadOutcome::Events { read, .. } ==> read <= capacity
        },
        (WatchView::Handling { .. }, WatchInput::Handled) => true,
        _ => false,
    }
}

/// Whether each of `inputs` is the outcome of what a watch does when it comes.
pub open spec fn all_answer(
    buffers: usize,
    capacity: usize,
    phase: WatchView,
    inputs: Seq<WatchInput>,
) -> bool
    decreases inputs.len(),
{
    inputs.len() > 0 ==> {
        &&& answers(capacity, phase, inputs[0])
        &&& all_answer(
            buffers,
            capacity,
            watch_next(buffers, capacity, phase, inputs[0]),
            inputs.drop_first(),
        )
    }
}

/// The reads that delivered records in the course of `inputs`: each time the
/// buffer, how many records it delivered and how many were lost before them.
pub open spec fn records_read(
    buffers: usize,
    capacity: usize,
    phase: WatchView,
    inputs: Seq<WatchInput>,
) -> Seq<(usize, usize, usize)>
    decreases inputs.len(),
{
    if inputs.len() == 0 {
        Seq::empty()
    } else {
        let rest = records_read(
            buffers,
            capacity,
            watch_next(buffers, capacity, phase, inputs[0]),
            inputs.drop_first(),
        );
        match (watch_action(phase), inputs[0]) {
            (
                WatchAction::Read { buffer },
                WatchInput::Read(ReadOutcome::Events { read, lost }),
            ) => if read > 0 {
                seq![(buffer, read, lost)] + rest
            } else {
                rest
            },
            _ => rest,
        }
    }
}

/// What was handled in the course of `inputs`: each time the buffer, how many
/// records of it and how many were lost before them.
pub open spec fn records_handled(
    buffers: usize,
    capacity: usize,
    phase: WatchView,
    inputs: Seq<WatchInput>,
) -> Seq<(usize, usize, usize)>
    decreases inputs.len(),
{
    if inputs.len() == 0 {
        Seq::empty()
    } else {
        let rest = records_handled(
            buffers,
            capacity,
            watch_next(buffers, capacity, phase, inputs[0]),
            inputs.drop_first(),
        );
        match (watch_action(phase), inputs[0]) {
            (WatchAction::Handle { buffer, count, lost }, WatchInput::Handled) => {
                seq![(buffer, count, lost)] + rest
            },
            _ => rest,
        }
    }
}

/// What a watch has read and not yet handled: one read at most.
pub open spec fn records_pending(phase: WatchView) -> Seq<(usize, usize, usize)> {
    match watch_action(phase) {
        WatchAction::Handle { buffer, count, lost } => seq![(buffer, count, lost)],
        _ => Seq::empty(),
    }
}

/// Every record that is read is handled, once and in order: what was handled, and
/// the one read that may still be pending, are the reads that delivered records.
pub proof fn law_every_record_is_handled(
    buffers: usize,
    capacity: usize,
    phase: WatchView,
    inputs: Seq<WatchInput>,
)
    requires
        all_answer(buffers, capacity, phase, inputs),
    ensures
        records_pending(phase) + records_read(buffers, capacity, phase, inputs) == records_handled(
            buffers,
            capacity,
            phase,
            inputs,
        ) + records_pending(watch_run(buffers, capacity, phase, inputs)),
        records_pending(watch_run(buffers, capacity, phase, inputs)).len() <= 1,
    decreases inputs.len(),
{
    if inputs.len() > 0 {
        let next = watch_next(buffers, capacity, phase, inputs[0]);
        let rest = inputs.drop_first();
        law_every_record_is_handled(buffers, capacity, next, rest);
        let read = records_read(buffers, capacity, next, rest);
        let handled = records_handled(buffers, capacity, next, rest);
        let end = records_pending(watch_run(buffers, capacity, next, rest));
        assert(records_pending(next) + read == handled + end);
        if let WatchView::Handling { left, count, lost } = phase {
            let one = seq![(left[0], count, lost)];
            assert(records_pending(next) + read =~= read);
            assert(one + (handled + end) =~= (one + handled) + end);
        } else if records_pending(next).len() > 0 {
            assert(records_read(buffers, capacity, phase, inputs) == records_pending(next) + read);
        }
        assert(records_pending(phase) + records_read(buffers, capacity, phase, inputs)
            =~= records_handled(buffers, capacity, phase, inputs) + end);
    } else {
        assert(records_pending(phase) + Seq::<(usize, usize, usize)>::empty() =~= Seq::<
            (usize, usize, usize),
        >::empty() + records_pending(phase));
    }
}

/// Only a wake-up or a failed wait ends a watch: nothing that happens to a
/// buffer does.
pub proof fn law_only_waits_end_a_watch(
    buffers: usize,
    capacity: usize,
    phase: WatchView,
    inputs: Seq<WatchInput>,
)
    requires
        !(phase is Stopped),
        forall|i: int|
            0 <= i < inputs.len() ==> (#[trigger] inputs[i] matches WatchInput::Polled(step)
                ==> step is Retry || step is Readable),
    ensures
        !(watch_run(buffers, capacity, phase, inputs) is Stopped),
    decreases inputs.len(),
{
    if inputs.len() > 0 {
        let rest = inputs.drop_first();
        assert(inputs[0] matches WatchInput::Polled(step) ==> step is Retry || step is Readable);
        assert forall|i: int| 0 <= i < rest.len() implies (#[trigger] rest[i] matches
            WatchInput::Polled(step) ==> step is Retry || step is Readable) by {
            assert(rest[i] == inputs[i + 1]);
        }
        law_only_waits_end_a_watch(
            buffers,
            capacity,
            watch_next(buffers, capacity, phase, inputs[0]),
            rest,
        );
    }
}

/// After a wait that names readable buffers, the ones left to be read are all
/// those named that exist, each as often as it was named and in the order in which
/// they were; where there is none, the watch waits again.
pub proof fn law_all_named_buffers_are_read(
    buffers: usize,
    capacity: usize,
    indices: Vec<usize>,
    index: usize,
)
    ensures
        ({
            let next = watch_next(
                buffers,
                capacity,
                WatchView::Waiting,
                WatchInput::Polled(PollStep::Readable(indices)),
            );
            let named = indices@.filter(|i: usize| i < buffers);
            let left = match next {
                WatchView::Reading { left } => left,
                _ => Seq::empty(),
            };
            &&& next is Reading || next is Waiting
            &&& next is Reading <==> exists|i: int|
                0 <= i < indices@.len() && #[trigger] indices@[i] < buffers
            &&& left == named
            &&& index < buffers ==> left.to_multiset().count(index)
                == indices@.to_multiset().count(index)
            &&& left.contains(index) <==> index < buffers && indices@.contains(index)
        }),
{
    let there = |i: usize| i < buffers;
    let named = indices@.filter(there);
    if index < buffers {
        lemma_filter_counts(indices@, buffers, index);
    }
    if named.len() > 0 {
        assert(named.contains(named[0]));
        indices@.lemma_filter_contains_rev(there, named[0]);
        indices@.lemma_filter_pred(there, 0);
        let i = choose|i: int| 0 <= i < indices@.len() && indices@[i] == named[0];
        assert(indices@[i] < buffers);
    }
    if exists|i: int| 0 <= i < indices@.len() && #[trigger] indices@[i] < buffers {
        let i = choose|i: int| 0 <= i < indices@.len() && #[trigger] indices@[i] < buffers;
        indices@.lemma_filter_contains(there, i);
    }
    if index < buffers && indices@.contains(index) {
        let i = choose|i: int| 0 <= i < indices@.len() && indices@[i] == index;
        indices@.lemma_filter_contains(there, i);
    }
    if named.contains(index) {
        let i = choose|i: int| 0 <= i < named.len() && named[i] == index;
        indices@.lemma_filter_pred(there, i);
        indices@.lemma_filter_contains_rev(there, index);
    }
}

proof fn lemma_filter_counts(indices: Seq<usize>, buffers: usize, index: usize)
    requires
        index < buffers,
    ensures
        indices.filter(|i: usize| i < buffers).to_multiset().count(index)
            == indices.to_multiset().count(index),
    decreases indices.len(),
{
    reveal(Seq::filter);
    broadcast use vstd::seq_lib::group_to_multiset_ensures;
    broadcast use vstd::multiset::group_multiset_axioms;

    let there = |i: usize| i < buffers;
    if indices.len() > 0 {
        let before = indices.drop_last();
        lemma_filter_counts(before, buffers, index);
        assert(indices =~= before.push(indices.last()));
        assert(indices.filter(there) == if indices.last() < buffers {
            before.filter(there).push(indices.last())
        } else {
            before.filter(there)
        });
    }
}

/// Each buffer that is read is read again as long as it delivers records, which
/// are handled, as many as there is room for; once it delivers none or cannot be
/// read, the next one is read, or the watch waits when there is none.
pub proof fn law_buffers_are_read_in_turn(
    buffers: usize,
    capacity: usize,
    left: Seq<usize>,
    read: usize,
    lost: usize,
)
    requires
        left.len() > 0,
    ensures
        ({
            let reading = WatchView::Reading { left };
            let got = watch_next(
                buffers,
                capacity,
                reading,
                WatchInput::Read(ReadOutcome::Events { read, lost }),
            );
            let failed = watch_next(
                buffers,
                capacity,
                reading,
                WatchInput::Read(ReadOutcome::Failed),
            );
            &&& watch_action(reading) == (WatchAction::Read { buffer: left[0] })
            &&& read > 0 ==> {
                &&& watch_action(got) == (WatchAction::Handle {
                    buffer: left[0],
                    count: if read <= capacity {
                        read
                    } else {
                        capacity
                    },
                    lost,
                })
                &&& watch_next(buffers, capacity, got, WatchInput::Handled) == reading
            }
            &&& read == 0 ==> got == failed
            &&& left.len() == 1 ==> watch_action(failed) == WatchAction::Wait
            &&& left.len() > 1 ==> {
                &&& watch_action(failed) == (WatchAction::Read { buffer: left[1] })
                &&& failed == (WatchView::Reading { left: left.subrange(1, left.len() as int) })
            }
        }),
{
}

/// A wait that is to be repeated is; one that was woken or that failed ends the
/// watch for good, with the reason.
pub proof fn law_waits_are_heeded(
    buffers: usize,
    capacity: usize,
    code: i32,
    reason: StopReason,
    input: WatchInput,
)
    ensures
        watch_action(WatchView::Waiting) == WatchAction::Wait,
        watch_action(
            watch_next(
                buffers,
                capacity,
                WatchView::Waiting,
                WatchInput::Polled(PollStep::Retry),
            ),
        ) == WatchAction::Wait,
        watch_action(
            watch_next(
                buffers,
                capacity,
                WatchView::Waiting,
                WatchInput::Polled(PollStep::Woken),
            ),
        ) == WatchAction::Stop(StopReason::Woken),
        watch_action(
            watch_next(
                buffers,
                capacity,
                WatchView::Waiting,
                WatchInput::Polled(PollStep::Failed(code)),
            ),
        ) == WatchAction::Stop(StopReason::WaitFailed(code)),
        watch_action(WatchView::Stopped(reason)) == WatchAction::Stop(reason),
        watch_next(buffers, capacity, WatchView::Stopped(reason), input) == WatchView::Stopped(
            reason,
        ),
{
}

/// A watch takes note only of the outcome of what it does; any other leaves it as
/// it is.
pub proof fn law_other_outcomes_change_nothing(
    buffers: usize,
    capacity: usize,
    phase: WatchView,
    input: WatchInput,
)
    requires
        phase is Waiting ==> !(input is Polled),
        phase is Reading ==> !(input is Read),
        phase is Handling ==> !(input is Handled),
    ensures
        watch_next(buffers, capacity, phase, input) == phase,
{
}

/// What a watch handles next is what it keeps for the first buffer it has left.
pub proof fn law_records_are_handled_where_read(left: Seq<usize>, count: usize, lost: usize)
    ensures
        watch_action(WatchView::Handling { left, count, lost }) == (WatchAction::Handle {
            buffer: left[0],
            count,
            lost,
        }),
{
}

/// What a watch has left names only buffers that exist, and it handles no more
/// than there is room for.
pub proof fn law_watch_bounds(
    buffers: usize,
    capacity: usize,
    left: Seq<usize>,
    count: usize,
    lost: usize,
)
    ensures
        watch_wf(buffers, capacity, WatchView::Reading { left }) <==> left.len() > 0 && (forall|
            i: int,
        |
            0 <= i < left.len() ==> left[i] < buffers),
        watch_wf(buffers, capacity, WatchView::Handling { left, count, lost }) <==> left.len() > 0
            && (forall|i: int| 0 <= i < left.len() ==> left[i] < buffers) && count <= capacity,
{
}

/// An event is suspicious exactly when the kernel took it for a shell, its path is
/// that of one of the two shells that are challenged, and its group is the
/// non-interactive one.
pub proof fn law_what_is_suspicious(event: EventView)
    ensures
        suspicious(event) <==> {
            let path = until_nul(event.filename);
            &&& event.is_shell
            &&& path == "/bin/bash".spec_bytes() || path == "/usr/bin/bash".spec_bytes()
            &&& event.cgroup_type == 2
        },
{
}

/// Whatever is delivered is judged by its own content: it is malformed exactly
/// when it is too short or its flag is neither 0 nor 1, and otherwise the event
/// is what stands in it, to be looked into exactly when it is that of a challenged
/// shell in the non-interactive group.
pub proof fn law_records_are_judged(bytes: Seq<u8>, order: ByteOrder, decision: EventDecision)
    requires
        decides(bytes, order, decision),
    ensures
        decision is Malformed <==> bytes.len() < 48 || bytes[44] > 1,
        decision is InspectTty <==> {
            let path = until_nul(bytes.subrange(0, 32));
            &&& bytes.len() >= 48
            &&& bytes[44] == 1
            &&& path == "/bin/bash".spec_bytes() || path == "/usr/bin/bash".spec_bytes()
            &&& u32_value(bytes.subrange(40, 44), order) == 2
        },
        ({
            let told = match decision {
                EventDecision::Malformed => None,
                EventDecision::Ignore(event) => Some(event),
                EventDecision::InspectTty(event) => Some(event),
            };
            told matches Some(event) ==> {
                &&& event._filename@ == bytes.subrange(0, 32)
                &&& event._uid == u32_value(bytes.subrange(32, 36), order)
                &&& event._pid == u32_value(bytes.subrange(36, 40), order)
                &&& event._cgroup_type == u32_value(bytes.subrange(40, 44), order)
                &&& event._is_shell <==> bytes[44] == 1
            }
        }),
{
    law_any_record_is_read(bytes, order);
}

/// A process is challenged exactly for an event of its own that is suspicious,
/// when its input leads to a pseudo-terminal; process 0 never is.
pub proof fn law_who_is_challenged(event: EventView, target: Result<String, String>, pid: u32)
    ensures
        target_of(event, target) == Some(pid) <==> {
            let path = until_nul(event.filename);
            &&& pid == event.pid
            &&& pid != 0
            &&& event.is_shell
            &&& path == "/bin/bash".spec_bytes() || path == "/usr/bin/bash".spec_bytes()
            &&& event.cgroup_type == 2
            &&& target is Ok
            &&& "/dev/pts/"@.is_prefix_of(target->Ok_0@)
        },
{
    law_pty_is_under_dev_pts(event.pid, target);
}

} // verus!
