//! The hook that sees every `exec`.

use crate::event::{filename_field, EventView, SecurityEvent};
use crate::octets::{same_bytes, zero_padded};
use crate::policy::{
    cgroup_kind, covered, kind_of, path_blacklisted, thread_id, thread_of, CGROUP_NON_INTERACTIVE,
};
use vstd::prelude::*;
use vstd::string::*;

verus! {

/// An `exec`, with what the kernel read and looked up for it. A failed read
/// comes with its error code.
pub struct ExecRequest<'a> {
    /// The path that is executed.
    pub filename: Result<&'a [u8], i64>,
    /// The control group entry for the group of the process.
    pub entry: Option<u32>,
    /// The user that the program will run as, none without credentials.
    pub uid: Option<u32>,
    /// The combined identifier of the current process.
    pub pid_tgid: u64,
    /// Whether the thread, by the thread half of the identifier, holds an allowance
    /// to pass the deny lists.
    pub allowed: bool,
    /// The denied path prefixes, by their keys.
    pub paths: &'a [[u8; 64]],
    /// Whether the name of the binary is on the deny list of names.
    pub name_listed: Result<bool, i64>,
}

/// What is done about an `exec`.
#[derive(Debug, Clone, Copy, PartialEq, Eq)]
pub struct ExecDecision {
    /// What is sent to the daemon.
    pub event: Option<SecurityEvent>,
    /// Whether the allowance of the thread is used up by this `exec`.
    pub allowance_used: bool,
    /// What the hook returns: 0 allows, anything else denies.
    pub code: i32,
}

/// The shells that the kernel knows by their paths.
pub open spec fn is_shell_path(path: Seq<u8>) -> bool {
    ||| path == "/bin/bash".spec_bytes()
    ||| path == "/bin/sh".spec_bytes()
    ||| path == "/usr/bin/bash".spec_bytes()
    ||| path == "/usr/bin/sh".spec_bytes()
}

/// Whether `path` is that of a known shell.
pub fn shell_path(path: &[u8]) -> (yes: bool)
    ensures
        yes == is_shell_path(path@),
{
    same_bytes(path, "/bin/bash".as_bytes()) || same_bytes(path, "/bin/sh".as_bytes())
        || same_bytes(path, "/usr/bin/bash".as_bytes()) || same_bytes(
        path,
        "/usr/bin/sh".as_bytes(),
    )
}

/// Whether an `exec` can be reported: its path could be read and it has
/// credentials.
pub open spec fn reportable(request: ExecRequest) -> bool {
    request.filename is Ok && request.uid is Some
}

/// What is reported of an `exec`.
pub open spec fn report(request: ExecRequest) -> EventView
    recommends
        reportable(request),
{
    let path = request.filename->Ok_0@;
    EventView {
        filename: zero_padded(path, 32),
        uid: request.uid->0,
        pid: thread_of(request.pid_tgid),
        cgroup_type: kind_of(request.entry),
        is_shell: is_shell_path(path),
    }
}

/// Whether the deny lists are held against an `exec`: it comes from the
/// non-interactive group.
pub open spec fn restricted(request: ExecRequest) -> bool {
    reportable(request) && kind_of(request.entry) == CGROUP_NON_INTERACTIVE
}

/// Whether the deny lists are held against an `exec` with this path, group entry
/// and user.
pub open spec fn consults(
    filename: Result<&[u8], i64>,
    entry: Option<u32>,
    uid: Option<u32>,
) -> bool {
    filename is Ok && uid is Some && kind_of(entry) == CGROUP_NON_INTERACTIVE
}

/// Whether the deny lists are held against an `exec`, so that it has to be looked
/// up whether the thread is allowed, which paths are denied and whether the name
/// of the binary is.
pub fn consults_lists(
    filename: &Result<&[u8], i64>,
    entry: Option<u32>,
    uid: Option<u32>,
) -> (yes: bool)
    ensures
        yes == (filename is Ok && uid is Some && kind_of(entry) == CGROUP_NON_INTERACTIVE),
        yes == consults(*filename, entry, uid),
{
    filename.is_ok() && uid.is_some() && cgroup_kind(entry) == CGROUP_NON_INTERACTIVE
}

/// What the deny lists say of an `exec`: the path prefixes first, then the name
/// of the binary, whose reading may fail.
pub open spec fn list_code(request: ExecRequest) -> int {
    if covered(request.paths@, request.filename->Ok_0@) {
        -1
    } else {
        match request.name_listed {
            Ok(listed) => if listed {
                -1
            } else {
                0
            },
            Err(code) => code as i32 as int,
        }
    }
}

/// What the hook returns for an `exec`.
pub open spec fn exec_code(request: ExecRequest) -> int {
    match request.filename {
        Err(code) => code as i32 as int,
        Ok(_) => if restricted(request) && !request.allowed {
            list_code(request)
        } else {
            0
        },
    }
}

/// Whether `decision` is what is done about `request`.
pub open spec fn decided(request: Option<&ExecRequest>, decision: ExecDecision) -> bool {
    match request {
        None => {
            &&& decision.event is None
            &&& !decision.allowance_used
            &&& decision.code == 0
        },
        Some(r) => {
            &&& decision.event is Some <==> reportable(*r)
            &&& decision.event matches Some(event) ==> event@ == report(*r)
            &&& decision.allowance_used == (restricted(*r) && r.allowed)
            &&& decision.code == exec_code(*r)
        },
    }
}

/// The code of a failed kernel read, as a hook returns it.
fn hook_code(code: i64) -> (narrowed: i32)
    ensures
        narrowed == code as i32,
{
    #[verifier::truncate]
    (code as i32)
}

fn check_lists(request: &ExecRequest, path: &[u8]) -> (code: i32)
    requires
        request.filename == Ok::<&[u8], i64>(path),
    ensures
        code == list_code(*request),
{
    if path_blacklisted(request.paths, path) {
        return -1;
    }
    match request.name_listed {
        Ok(listed) => if listed {
            -1
        } else {
            0
        },
        Err(code) => hook_code(code),
    }
}

/// Decides an `exec`.
///
/// Every `exec` whose path and credentials are there is reported to the daemon,
/// whatever the verdict on it. In the non-interactive group the deny lists are
/// held against it, unless its thread holds an allowance, which is then used
/// up. A path that cannot be read fails the `exec` with the code of the read,
/// and so does the name of a binary where it is needed. Without a program or
/// without credentials there is nothing to decide.
pub fn bprm_check_security(request: Option<&ExecRequest>) -> (decision: ExecDecision)
    ensures
        request is None ==> decision == (ExecDecision {
            event: None,
            allowance_used: false,
            code: 0,
        }),
        request matches Some(r) ==> {
            &&& decision.event is Some <==> reportable(*r)
            &&& decision.event matches Some(event) ==> event@ == report(*r)
            &&& decision.allowance_used == (restricted(*r) && r.allowed)
            &&& decision.code == exec_code(*r)
        },
        decided(request, decision),
{
    let request = match request {
        Some(request) => request,
        None => return ExecDecision { event: None, allowance_used: false, code: 0 },
    };
    let path: &[u8] = match request.filename {
        Ok(path) => path,
        Err(code) => return ExecDecision {
            event: None,
            allowance_used: false,
            code: hook_code(code),
        },
    };
    let uid: u32 = match request.uid {
        Some(uid) => uid,
        None => return ExecDecision { event: None, allowance_used: false, code: 0 },
    };
    let kind = cgroup_kind(request.entry);
    let event = SecurityEvent {
        _filename: filename_field(path),
        _uid: uid,
        _pid: thread_id(request.pid_tgid),
        _cgroup_type: kind,
        _is_shell: shell_path(path),
    };
    if kind != CGROUP_NON_INTERACTIVE {
        return ExecDecision { event: Some(event), allowance_used: false, code: 0 };
    }
    if request.allowed {
        return ExecDecision { event: Some(event), allowance_used: true, code: 0 };
    }
    ExecDecision { event: Some(event), allowance_used: false, code: check_lists(request, path) }
}

/// Where the deny lists are not held against an `exec`, what they and the
/// allowances hold makes no difference: they need not be looked at.
pub proof fn law_lists_matter_only_if_consulted(a: ExecRequest, b: ExecRequest)
    requires
        a.filename == b.filename,
        a.entry == b.entry,
        a.uid == b.uid,
        a.pid_tgid == b.pid_tgid,
        !restricted(a),
    ensures
        exec_code(a) == exec_code(b),
        reportable(a) == reportable(b),
        report(a) == report(b),
        !restricted(b),
{
}

/// The kernel knows exactly four shells.
pub proof fn law_four_shells(path: Seq<u8>)
    ensures
        is_shell_path(path) <==> path == "/bin/bash".spec_bytes() || path
            == "/usr/bin/bash".spec_bytes() || path == "/bin/sh".spec_bytes() || path
            == "/usr/bin/sh".spec_bytes(),
{
}

/// What is reported of an `exec` is its own: the path as far as it fits, the user
/// of the credentials, the thread, the kind of its group and whether it is a
/// shell.
pub proof fn law_report_is_of_the_exec(request: ExecRequest)
    requires
        request.filename is Ok,
        request.uid is Some,
    ensures
        ({
            let path = request.filename->Ok_0@;
            let said = report(request);
            &&& said.filename.len() == 32
            &&& forall|i: int|
                0 <= i < 32 && i < path.len() ==> #[trigger] said.filename[i] == path[i]
            &&& forall|i: int| path.len() <= i < 32 ==> #[trigger] said.filename[i] == 0u8
            &&& Some(said.uid) == request.uid
            &&& said.pid == request.pid_tgid % 0x1_0000_0000
            &&& request.entry is Some ==> Some(said.cgroup_type) == request.entry
            &&& request.entry is None ==> said.cgroup_type == 0
            &&& said.is_shell <==> path == "/bin/bash".spec_bytes() || path
                == "/usr/bin/bash".spec_bytes() || path == "/bin/sh".spec_bytes() || path
                == "/usr/bin/sh".spec_bytes()
        }),
{
}

/// An `exec` is reported exactly when its path was read and it has credentials,
/// and held to the deny lists exactly when, besides, its group is registered as the
/// non-interactive one. Neither depends on what the lists and the allowances hold.
pub proof fn law_who_is_reported_and_restricted(request: ExecRequest)
    ensures
        reportable(request) <==> request.filename is Ok && request.uid is Some,
        restricted(request) <==> request.filename is Ok && request.uid is Some && request.entry
            == Some(2u32),
        consults(request.filename, request.entry, request.uid) <==> request.filename is Ok
            && request.uid is Some && request.entry == Some(2u32),
{
}

/// The verdict on an `exec`: the error of reading the path, where that failed;
/// otherwise denial, where it has credentials, its group is the non-interactive
/// one, its thread holds no allowance, and a denied prefix covers the path or its
/// name is denied; the error of reading the name, where that was needed and failed;
/// and otherwise permission.
pub proof fn law_exec_verdict(request: ExecRequest)
    ensures
        request.filename matches Err(code) ==> exec_code(request) == code as i32,
        request.filename is Ok && (request.uid is None || request.entry != Some(2u32)
            || request.allowed) ==> exec_code(request) == 0,
        request.filename is Ok && request.uid is Some && request.entry == Some(2u32)
            && !request.allowed ==> {
            let listed_path = covered(request.paths@, request.filename->Ok_0@);
            &&& listed_path ==> exec_code(request) == -1
            &&& !listed_path && request.name_listed == Ok::<bool, i64>(true) ==> exec_code(request)
                == -1
            &&& !listed_path && request.name_listed == Ok::<bool, i64>(false) ==> exec_code(
                request,
            ) == 0
            &&& !listed_path ==> (request.name_listed matches Err(code) ==> exec_code(request)
                == code as i32)
        },
{
}

/// What is done about an `exec` is what was found out about it: the event is sent,
/// with every field its own, exactly when there is one to send; the allowance is
/// used up exactly where it is what lets the `exec` pass the lists.
pub proof fn law_decision_is_about_the_exec(request: ExecRequest, decision: ExecDecision)
    requires
        decided(Some(&request), decision),
    ensures
        decision.event is Some <==> request.filename is Ok && request.uid is Some,
        decision.event matches Some(event) ==> {
            let path = request.filename->Ok_0@;
            &&& forall|i: int|
                0 <= i < 32 ==> #[trigger] event._filename@[i] == if i < path.len() {
                    path[i]
                } else {
                    0u8
                }
            &&& Some(event._uid) == request.uid
            &&& event._pid == request.pid_tgid % 0x1_0000_0000
            &&& request.entry is Some ==> Some(event._cgroup_type) == request.entry
            &&& request.entry is None ==> event._cgroup_type == 0
            &&& event._is_shell <==> path == "/bin/bash".spec_bytes() || path
                == "/usr/bin/bash".spec_bytes() || path == "/bin/sh".spec_bytes() || path
                == "/usr/bin/sh".spec_bytes()
        },
        decision.allowance_used <==> request.filename is Ok && request.uid is Some && request.entry
            == Some(2u32) && request.allowed,
        decision.code == exec_code(request),
{
    if let Some(event) = decision.event {
        law_report_is_of_the_exec(request);
        let said = report(request);
        assert(event._filename@ == said.filename);
    }
}

/// Without a program nothing is sent, used up or denied.
pub proof fn law_no_program_no_decision(decision: ExecDecision)
    requires
        decided(None, decision),
    ensures
        decision.event is None,
        !decision.allowance_used,
        decision.code == 0,
{
}

} // verus!
