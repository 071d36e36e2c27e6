//! What holds of kernel hooks and daemon together.

use crate::event::{
    holds_record, law_filename_kept, law_record_round_trip, record, record_content, EventView,
};
use crate::exec_hook::{
    exec_code, is_shell_path, law_report_is_of_the_exec, list_code, report, reportable, restricted,
    ExecRequest,
};
use crate::file_hook::{file_code, FileRequest, MAY_WRITE};
use crate::monitor::{
    is_challenged_shell, law_what_is_suspicious, law_who_is_challenged, suspicious, target_of,
};
use crate::octets::ByteOrder;
use crate::policy::{
    covered, kind_of, law_startup_kinds, lookup, process_of, startup_map, thread_of,
    CGROUP_INTERACTIVE_PROCS, CGROUP_NON_INTERACTIVE,
};
use crate::reauth::{acts, first_phase, next_phase, Action, Outcome, Signal};
use crate::ssh_context::ContextAction;
use crate::tty::law_pty_is_found;
use vstd::prelude::*;
use vstd::string::*;

verus! {

/// After start-up the daemon alone can write to the file through which processes
/// enter the interactive group; nobody is kept from reading it, or from any
/// access to another file.
pub proof fn law_daemon_alone_admits(
    interactive: u64,
    non_interactive: u64,
    procs: u64,
    daemon: u32,
    inode: u64,
    mask: i32,
    pid_tgid: u64,
)
    requires
        interactive != non_interactive,
        interactive != procs,
        non_interactive != procs,
    ensures
        ({
            let request = FileRequest {
                mask,
                entry: lookup(startup_map(interactive, non_interactive, procs), inode),
                pid_tgid,
                daemon: Some(daemon),
            };
            &&& file_code(request) == 0 || file_code(request) == -1
            &&& file_code(request) == -1 <==> inode == procs && mask & MAY_WRITE != 0 && process_of(
                pid_tgid,
            ) != daemon
        }),
{
    law_startup_kinds(interactive, non_interactive, procs, inode);
}

/// Until a daemon is registered nobody can write to that file.
pub proof fn law_nobody_admits_without_daemon(request: FileRequest)
    requires
        request.daemon is None,
        request.mask & MAY_WRITE != 0,
        kind_of(request.entry) == CGROUP_INTERACTIVE_PROCS,
    ensures
        file_code(request) == -1,
{
}

/// After start-up, an `exec` that can be reported is held to the deny lists
/// exactly in the non-interactive group, and there exactly when its thread holds
/// no allowance; everywhere else it is allowed. A listed path or binary is then
/// denied, and one whose name could be read and that is on neither list is not.
pub proof fn law_listed_execs_are_denied(
    interactive: u64,
    non_interactive: u64,
    procs: u64,
    group: u64,
    request: ExecRequest,
)
    requires
        interactive != non_interactive,
        interactive != procs,
        non_interactive != procs,
        reportable(request),
        request.entry == lookup(startup_map(interactive, non_interactive, procs), group),
    ensures
        group != non_interactive || request.allowed ==> exec_code(request) == 0,
        group == non_interactive && !request.allowed && (covered(
            request.paths@,
            request.filename->Ok_0@,
        ) || request.name_listed == Ok::<bool, i64>(true)) ==> exec_code(request) == -1,
        group == non_interactive && !covered(request.paths@, request.filename->Ok_0@)
            && request.name_listed == Ok::<bool, i64>(false) ==> exec_code(request) == 0,
{
    law_startup_kinds(interactive, non_interactive, procs, group);
}

/// The allowances after the daemon performed `action`. An allowance goes by the
/// number of a thread, the lower half of the kernel's combined identifier.
pub open spec fn allowances_granted(allowances: Set<u32>, action: ContextAction) -> Set<u32> {
    match action {
        ContextAction::AllowExec(thread) => allowances.insert(thread),
        _ => allowances,
    }
}

/// The allowances that are left after an `exec`.
pub open spec fn allowances_after(allowances: Set<u32>, request: ExecRequest) -> Set<u32> {
    if restricted(request) && request.allowed {
        allowances.remove(thread_of(request.pid_tgid))
    } else {
        allowances
    }
}

/// The allowances that are left after several `exec`s.
pub open spec fn allowances_after_all(allowances: Set<u32>, requests: Seq<ExecRequest>) -> Set<u32>
    decreases requests.len(),
{
    if requests.len() == 0 {
        allowances
    } else {
        allowances_after_all(allowances_after(allowances, requests[0]), requests.drop_first())
    }
}

/// Whether none of `requests` is an `exec` of `thread` in the non-interactive
/// group.
pub open spec fn of_others(thread: u32, requests: Seq<ExecRequest>) -> bool {
    forall|i: int|
        0 <= i < requests.len() ==> thread_of((#[trigger] requests[i]).pid_tgid) != thread
            || !restricted(requests[i])
}

/// An allowance is good for one `exec` in the non-interactive group: the first
/// one of its thread passes the deny lists, the next one is held to them.
pub proof fn law_allowance_is_one_shot(
    allowances: Set<u32>,
    first: ExecRequest,
    second: ExecRequest,
)
    requires
        restricted(first),
        restricted(second),
        thread_of(first.pid_tgid) == thread_of(second.pid_tgid),
        first.allowed == allowances.contains(thread_of(first.pid_tgid)),
        second.allowed == allowances_after(allowances, first).contains(
            thread_of(second.pid_tgid),
        ),
    ensures
        first.allowed ==> exec_code(first) == 0,
        exec_code(second) == list_code(second),
{
}

/// An `exec` uses no allowance but that of its own thread, and outside the
/// non-interactive group not even that.
pub proof fn law_allowances_of_others_kept(
    allowances: Set<u32>,
    requests: Seq<ExecRequest>,
    thread: u32,
)
    requires
        of_others(thread, requests),
    ensures
        allowances_after_all(allowances, requests).contains(thread) == allowances.contains(thread),
    decreases requests.len(),
{
    if requests.len() > 0 {
        let rest = requests.drop_first();
        assert forall|i: int| 0 <= i < rest.len() implies thread_of(
            (#[trigger] rest[i]).pid_tgid,
        ) != thread || !restricted(rest[i]) by {
            assert(rest[i] == requests[i + 1]);
        }
        assert(thread_of(requests[0].pid_tgid) != thread || !restricted(requests[0]));
        law_allowances_of_others_kept(
            allowances_after(allowances, requests[0]),
            rest,
            thread,
        );
    }
}

/// What the daemon allows in answer to a message holds for one `exec`: whatever
/// others run in the meantime, the first `exec` of the allowed thread in the
/// non-interactive group passes the deny lists, and its next one is held to them.
pub proof fn law_granted_exec_passes_once(
    allowances: Set<u32>,
    action: ContextAction,
    before: Seq<ExecRequest>,
    first: ExecRequest,
    between: Seq<ExecRequest>,
    second: ExecRequest,
)
    requires
        action is AllowExec,
        of_others(action->AllowExec_0, before),
        of_others(action->AllowExec_0, between),
        restricted(first),
        restricted(second),
        thread_of(first.pid_tgid) == action->AllowExec_0,
        thread_of(second.pid_tgid) == action->AllowExec_0,
        first.allowed == allowances_after_all(
            allowances_granted(allowances, action),
            before,
        ).contains(thread_of(first.pid_tgid)),
        second.allowed == allowances_after_all(
            allowances_after(
                allowances_after_all(allowances_granted(allowances, action), before),
                first,
            ),
            between,
        ).contains(thread_of(second.pid_tgid)),
    ensures
        exec_code(first) == 0,
        exec_code(second) == list_code(second),
{
    let thread = action->AllowExec_0;
    let granted = allowances_granted(allowances, action);
    let held = allowances_after_all(granted, before);
    law_allowances_of_others_kept(granted, before, thread);
    law_allowances_of_others_kept(allowances_after(held, first), between, thread);
}

/// The daemon notices every shell that is to be challenged, and nothing else:
/// whatever the hook's verdict, what it reads of the report that the hook sends
/// is suspicious exactly when the path is that of a challenged shell and the
/// process runs in the non-interactive group. It does so at every `exec` anew.
pub proof fn law_shell_is_noticed(request: ExecRequest, order: ByteOrder, rest: Seq<u8>)
    requires
        reportable(request),
    ensures
        ({
            let seen = record_content(record(report(request), order) + rest, order);
            &&& suspicious(seen) <==> is_challenged_shell(request.filename->Ok_0@) && kind_of(
                request.entry,
            ) == CGROUP_NON_INTERACTIVE
            &&& seen.pid == thread_of(request.pid_tgid)
        }),
{
    let path = request.filename->Ok_0@;
    law_record_round_trip(report(request), order, rest);
    if is_shell_path(path) {
        lemma_shell_path_fits(path);
        law_filename_kept(path);
    } else {
        assert(!is_challenged_shell(path));
    }
}

proof fn lemma_shell_path_fits(path: Seq<u8>)
    requires
        is_shell_path(path),
    ensures
        path.len() <= 32,
        !path.contains(0u8),
{
    reveal_strlit("/bin/bash");
    reveal_strlit("/bin/sh");
    reveal_strlit("/usr/bin/bash");
    reveal_strlit("/usr/bin/sh");
    is_ascii_spec_bytes("/bin/bash");
    is_ascii_spec_bytes("/bin/sh");
    is_ascii_spec_bytes("/usr/bin/bash");
    is_ascii_spec_bytes("/usr/bin/sh");
}

/// The daemon reads of every `exec` what the kernel saw of it, whatever follows the
/// record: the path as far as it fits, the user, the thread, the kind of the group,
/// which is 0 for one that is not registered, and whether it is a shell.
pub proof fn law_daemon_sees_the_exec(request: ExecRequest, order: ByteOrder, rest: Seq<u8>)
    requires
        request.filename is Ok,
        request.uid is Some,
    ensures
        ({
            let path = request.filename->Ok_0@;
            let bytes = record(report(request), order) + rest;
            let seen = record_content(bytes, order);
            &&& holds_record(bytes)
            &&& seen.filename.len() == 32
            &&& forall|i: int|
                0 <= i < 32 ==> #[trigger] seen.filename[i] == if i < path.len() {
                    path[i]
                } else {
                    0u8
                }
            &&& seen.uid == request.uid->0
            &&& seen.pid == request.pid_tgid % 0x1_0000_0000
            &&& seen.cgroup_type == match request.entry {
                Some(kind) => kind,
                None => 0u32,
            }
            &&& seen.is_shell <==> path == "/bin/bash".spec_bytes() || path
                == "/usr/bin/bash".spec_bytes() || path == "/bin/sh".spec_bytes() || path
                == "/usr/bin/sh".spec_bytes()
        }),
{
    law_report_is_of_the_exec(request);
    law_record_round_trip(report(request), order, rest);
}

/// What the daemon reads of an `exec` is suspicious exactly when the path is
/// `/bin/bash` or `/usr/bin/bash` and the group is the non-interactive one.
pub proof fn law_two_shells_are_suspicious(request: ExecRequest, order: ByteOrder, rest: Seq<u8>)
    requires
        request.filename is Ok,
        request.uid is Some,
    ensures
        ({
            let path = request.filename->Ok_0@;
            let seen = record_content(record(report(request), order) + rest, order);
            suspicious(seen) <==> (path == "/bin/bash".spec_bytes() || path
                == "/usr/bin/bash".spec_bytes()) && request.entry == Some(2u32)
        }),
{
    law_shell_is_noticed(request, order, rest);
}

/// An `exec` leads to a challenge exactly when it is one of `/bin/bash` or
/// `/usr/bin/bash`, in the non-interactive group, by a process that is not 0 and whose input
/// is a pseudo-terminal; and the process that is challenged is then the one whose
/// number the kernel reported.
pub proof fn law_exec_leads_to_challenge(
    request: ExecRequest,
    order: ByteOrder,
    rest: Seq<u8>,
    target: Result<String, String>,
    pid: u32,
)
    requires
        request.filename is Ok,
        request.uid is Some,
    ensures
        ({
            let path = request.filename->Ok_0@;
            let seen = record_content(record(report(request), order) + rest, order);
            target_of(seen, target) == Some(pid) <==> {
                &&& pid == request.pid_tgid % 0x1_0000_0000
                &&& pid != 0
                &&& path == "/bin/bash".spec_bytes() || path == "/usr/bin/bash".spec_bytes()
                &&& request.entry == Some(2u32)
                &&& target is Ok
                &&& "/dev/pts/"@.is_prefix_of(target->Ok_0@)
            }
        }),
{
    let seen = record_content(record(report(request), order) + rest, order);
    law_two_shells_are_suspicious(request, order, rest);
    law_daemon_sees_the_exec(request, order, rest);
    law_what_is_suspicious(seen);
    law_who_is_challenged(seen, target, pid);
}

/// The process that is challenged is asked on the pseudo-terminal for which it was
/// chosen: the challenge first stops that process and then opens that path.
pub proof fn law_challenge_is_on_the_terminal_found(
    event: EventView,
    target: Result<String, String>,
    pid: u32,
    outcome: Outcome,
    first: Action,
    second: Action,
)
    requires
        target_of(event, target) == Some(pid),
        acts(pid, first_phase(pid, target), first),
        acts(pid, next_phase(first_phase(pid, target), outcome), second),
    ensures
        first == (Action::Send { pid: event.pid, signal: Signal::Stop }),
        second == Action::OpenTty(target->Ok_0),
{
    law_who_is_challenged(event, target, pid);
    law_pty_is_found(pid, target);
}

} // verus!
